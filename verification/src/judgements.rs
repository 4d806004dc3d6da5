//! Which types operations accept, and which types they have.

use vstd::prelude::*;

use crate::chain::Chain;
use crate::diagnostics::reported;
use crate::hir::{BinaryOp, DefinitionKind, Expr, UnaryOp};
use crate::ids::{Span, TyId};
use crate::semantics::{Coercion, TaskIntrinsic};
use crate::state::{Context, World};
use crate::steps::{bool_ty, task_outputs};
use crate::ty::{all_below, error_ty, never_ty, parts_below, ty_data, BuiltinType, TyData};
use crate::typing::{has_room, has_shape, is_builtin, law_builtin_types, law_made_types};

verus! {

/// `ty` is a constrained type over `base`.
pub open spec fn constrains(w: World, cx: &Context, ty: TyId, base: TyId) -> bool {
    match w.data(ty) {
        TyData::Nominal { definition, arguments: _ } => match cx.program.kind_of(definition) {
            Some(DefinitionKind::RefinedType { base: written, predicate: _ }) =>
                cx.type_refs.lookup(written.0) == Some(base),
            _ => false,
        },
        _ => false,
    }
}

/// A value of type `actual` may stand where `expected` is asked for: it has
/// that type, never comes to be, or is a constrained value of that type. What
/// is in error may stand anywhere.
pub open spec fn may_stand(w: World, cx: &Context, actual: TyId, expected: TyId) -> bool {
    ||| actual == expected
    ||| w.data(actual) == TyData::Error
    ||| w.data(expected) == TyData::Error
    ||| w.data(actual) == TyData::Never
    ||| constrains(w, cx, actual, expected)
}

/// The type is the builtin one, or a constrained type over it.
pub open spec fn is_kind_of(w: World, cx: &Context, ty: TyId, builtin: BuiltinType) -> bool {
    ||| w.data(ty) == TyData::Builtin(builtin)
    ||| exists|base: TyId| #[trigger]
        constrains(w, cx, ty, base) && w.data(base) == TyData::Builtin(builtin)
}

/// Types are the same, or one stands for the other, as `may_stand` says.
pub proof fn law_assignable(w: World, cx: &Context, actual: TyId, expected: TyId)
    ensures
        w.assignable(cx, actual, expected) <==> may_stand(w, cx, actual, expected),
{
}

proof fn lemma_kind_of(w: World, cx: &Context, ty: TyId, builtin: BuiltinType)
    ensures
        w.is_builtin_or_refined(cx, ty, builtin) <==> is_kind_of(w, cx, ty, builtin),
{
    match w.base_of(cx, ty) {
        Some(base) => {
            assert(constrains(w, cx, ty, base));
        },
        None => {},
    }
}

/// Where no interface is asked for, a value is accepted without a word exactly
/// if it may stand there, and has the expected type; any other is reported at
/// the expression and has the error type.
pub proof fn law_coercion(w: World, cx: &Context, e: Expr, actual: TyId, expected: TyId)
    requires
        w.wf(),
        !(w.data(expected) is View),
    ensures
        ({
            let (after, ty) = w.coerce(cx, e, actual, expected);
            &&& may_stand(w, cx, actual, expected) ==> ty == expected && after.st.diagnostics
                == w.st.diagnostics
            &&& !may_stand(w, cx, actual, expected) ==> ty == error_ty() && reported(
                w.st.diagnostics,
                after.st.diagnostics,
                "TypeMismatch",
                e.span,
            )
            &&& after.types == w.types
            &&& after.st.flow == w.st.flow
        }),
{
    reveal(World::coerce);
    reveal(World::report);
    reveal(World::set_coercion);
    law_builtin_types(w, BuiltinType::Bool);
}

/// An adaptation is noted where one is needed: a value that never comes to be
/// becomes anything, and a constrained value its base.
pub proof fn law_coercions_are_noted(w: World, cx: &Context, e: Expr, actual: TyId, expected: TyId)
    requires
        w.wf(),
        !(w.data(expected) is View),
        actual != expected,
        w.data(actual) != TyData::Error,
        w.data(expected) != TyData::Error,
    ensures
        ({
            let after = w.coerce(cx, e, actual, expected).0;
            let noted = after.st.semantics.expression_coercions.lookup(e.id.0);
            &&& w.data(actual) == TyData::Never ==> noted == Some(Coercion::NeverToAny)
            &&& constrains(w, cx, actual, expected) ==> match (w.data(actual), noted) {
                (
                    TyData::Nominal { definition, arguments: _ },
                    Some(Coercion::RefinedToBase { refined }),
                ) => definition == refined,
                _ => false,
            }
        }),
{
    reveal(World::coerce);
    reveal(World::set_coercion);
    crate::table::law_table_reads_last_insert(
        w.st.semantics.expression_coercions,
        e.id.0,
        Coercion::NeverToAny,
    );
    match w.refined_of(cx, actual) {
        Some(refined) => {
            crate::table::law_table_reads_last_insert(
                w.st.semantics.expression_coercions,
                e.id.0,
                Coercion::RefinedToBase { refined },
            );
        },
        None => {},
    }
}

/// Two branches have a common type if one of their types may stand for the
/// other: that other. Otherwise it is reported and the type is in error.
pub proof fn law_joined_types(w: World, cx: &Context, left: TyId, right: TyId, span: Span)
    ensures
        ({
            let (after, ty) = w.join_types(cx, left, right, span);
            if may_stand(w, cx, right, left) {
                ty == left && after == w
            } else if may_stand(w, cx, left, right) {
                ty == right && after == w
            } else {
                ty == error_ty() && reported(
                    w.st.diagnostics,
                    after.st.diagnostics,
                    "TypeMismatch",
                    span,
                )
            }
        }),
        left == right ==> w.join_types(cx, left, right, span) == (w, left),
{
    reveal(World::join_types);
    reveal(World::report);
}

/// The sum, difference, product and quotient take two integers or two floats
/// and give the same; anything else is an error.
pub proof fn law_arithmetic_types(
    w: World,
    cx: &Context,
    e: Expr,
    op: BinaryOp,
    left: Expr,
    left_ty: TyId,
    right: Expr,
    right_ty: TyId,
)
    requires
        w.wf(),
        op == BinaryOp::Add || op == BinaryOp::Subtract || op == BinaryOp::Multiply || op
            == BinaryOp::Divide,
    ensures
        ({
            let (after, ty) = w.end_binary(cx, e, op, left, left_ty, right, right_ty);
            let ints = is_kind_of(w, cx, left_ty, BuiltinType::Int) && is_kind_of(
                w,
                cx,
                right_ty,
                BuiltinType::Int,
            );
            let floats = is_kind_of(w, cx, left_ty, BuiltinType::Float) && is_kind_of(
                w,
                cx,
                right_ty,
                BuiltinType::Float,
            );
            &&& ints ==> is_builtin(after, ty, BuiltinType::Int) && after == w
            &&& floats && !ints ==> is_builtin(after, ty, BuiltinType::Float) && after == w
            &&& !ints && !floats ==> has_shape(after, ty, TyData::Error) && reported(
                w.st.diagnostics,
                after.st.diagnostics,
                "InvalidGenericOperation",
                e.span,
            )
        }),
{
    reveal(World::end_binary);
    reveal(World::report);
    lemma_kind_of(w, cx, left_ty, BuiltinType::Int);
    lemma_kind_of(w, cx, right_ty, BuiltinType::Int);
    lemma_kind_of(w, cx, left_ty, BuiltinType::Float);
    lemma_kind_of(w, cx, right_ty, BuiltinType::Float);
    law_builtin_types(w, BuiltinType::Int);
    law_builtin_types(w, BuiltinType::Float);
}

/// A comparison for order takes two integers or two floats and gives a truth
/// value; anything else is an error.
pub proof fn law_order_types(
    w: World,
    cx: &Context,
    e: Expr,
    op: BinaryOp,
    left: Expr,
    left_ty: TyId,
    right: Expr,
    right_ty: TyId,
)
    requires
        w.wf(),
        op == BinaryOp::Less || op == BinaryOp::LessEqual || op == BinaryOp::Greater || op
            == BinaryOp::GreaterEqual,
    ensures
        ({
            let (after, ty) = w.end_binary(cx, e, op, left, left_ty, right, right_ty);
            let ints = is_kind_of(w, cx, left_ty, BuiltinType::Int) && is_kind_of(
                w,
                cx,
                right_ty,
                BuiltinType::Int,
            );
            let floats = is_kind_of(w, cx, left_ty, BuiltinType::Float) && is_kind_of(
                w,
                cx,
                right_ty,
                BuiltinType::Float,
            );
            &&& is_builtin(after, ty, BuiltinType::Bool)
            &&& ints || floats ==> after == w
            &&& !ints && !floats ==> reported(
                w.st.diagnostics,
                after.st.diagnostics,
                "InvalidGenericOperation",
                e.span,
            )
        }),
{
    reveal(World::end_binary);
    reveal(World::report);
    lemma_kind_of(w, cx, left_ty, BuiltinType::Int);
    lemma_kind_of(w, cx, right_ty, BuiltinType::Int);
    lemma_kind_of(w, cx, left_ty, BuiltinType::Float);
    lemma_kind_of(w, cx, right_ty, BuiltinType::Float);
    law_builtin_types(w, BuiltinType::Bool);
}

/// `&&` and `||` take truth values and give one: an operand that is none is
/// reported, the left one first.
pub proof fn law_logic_types(
    w: World,
    cx: &Context,
    e: Expr,
    op: BinaryOp,
    left: Expr,
    left_ty: TyId,
    right: Expr,
    right_ty: TyId,
)
    requires
        w.wf(),
        op == BinaryOp::And || op == BinaryOp::Or,
    ensures
        ({
            let (after, ty) = w.end_binary(cx, e, op, left, left_ty, right, right_ty);
            let first = may_stand(w, cx, left_ty, bool_ty());
            let second = may_stand(w, cx, right_ty, bool_ty());
            &&& is_builtin(after, ty, BuiltinType::Bool)
            &&& first && second ==> after.st.diagnostics == w.st.diagnostics
            &&& !first && second ==> reported(
                w.st.diagnostics,
                after.st.diagnostics,
                "TypeMismatch",
                left.span,
            )
            &&& first && !second ==> reported(
                w.st.diagnostics,
                after.st.diagnostics,
                "TypeMismatch",
                right.span,
            )
            &&& !first && !second ==> after.st.diagnostics is Link && reported(
                after.st.diagnostics->0.rest,
                after.st.diagnostics,
                "TypeMismatch",
                right.span,
            ) && reported(
                w.st.diagnostics,
                after.st.diagnostics->0.rest,
                "TypeMismatch",
                left.span,
            )
        }),
{
    reveal(World::end_binary);
    law_builtin_types(w, BuiltinType::Bool);
    let between = w.coerce(cx, left, left_ty, bool_ty()).0;
    law_coercion(w, cx, left, left_ty, bool_ty());
    law_coercion(between, cx, right, right_ty, bool_ty());
    law_builtin_types(between, BuiltinType::Bool);
}

/// A comparison for equality gives a truth value. Its operands must be of types
/// one of which may stand for the other, and both of which have values that can
/// be compared; otherwise it is reported.
pub proof fn law_equality_types(
    w: World,
    cx: &Context,
    e: Expr,
    op: BinaryOp,
    left: Expr,
    left_ty: TyId,
    right: Expr,
    right_ty: TyId,
)
    requires
        w.wf(),
        op == BinaryOp::Equal || op == BinaryOp::NotEqual,
    ensures
        ({
            let (after, ty) = w.end_binary(cx, e, op, left, left_ty, right, right_ty);
            let (asked, first) = w.supports_value_equality(cx, left_ty);
            let (again, second) = asked.supports_value_equality(cx, right_ty);
            let akin = may_stand(w, cx, left_ty, right_ty) || may_stand(w, cx, right_ty, left_ty);
            &&& ty == bool_ty()
            &&& !akin ==> reported(
                w.st.diagnostics,
                after.st.diagnostics,
                "TypeMismatch",
                e.span,
            )
            &&& akin && first && second ==> after == again
            &&& akin && !first ==> reported(
                asked.st.diagnostics,
                after.st.diagnostics,
                "InvalidGenericOperation",
                e.span,
            )
            &&& akin && first && !second ==> reported(
                again.st.diagnostics,
                after.st.diagnostics,
                "InvalidGenericOperation",
                e.span,
            )
        }),
{
    reveal(World::end_binary);
    reveal(World::end_equality);
    reveal(World::report);
}

/// `!` takes a truth value and gives one; `-` takes an integer or a float and
/// gives the same.
pub proof fn law_opposite_types(
    w: World,
    cx: &Context,
    e: Expr,
    op: UnaryOp,
    operand: Expr,
    operand_ty: TyId,
)
    requires
        w.wf(),
    ensures
        ({
            let (after, ty) = w.end_unary(cx, e, op, operand, operand_ty);
            let number = is_kind_of(w, cx, operand_ty, BuiltinType::Int);
            let float = is_kind_of(w, cx, operand_ty, BuiltinType::Float);
            match op {
                UnaryOp::Not => {
                    &&& is_builtin(after, ty, BuiltinType::Bool)
                    &&& may_stand(w, cx, operand_ty, bool_ty()) ==> after.st.diagnostics
                        == w.st.diagnostics
                    &&& !may_stand(w, cx, operand_ty, bool_ty()) ==> reported(
                        w.st.diagnostics,
                        after.st.diagnostics,
                        "TypeMismatch",
                        operand.span,
                    )
                },
                UnaryOp::Negate => {
                    &&& number ==> is_builtin(after, ty, BuiltinType::Int) && after == w
                    &&& float && !number ==> is_builtin(after, ty, BuiltinType::Float) && after == w
                    &&& !number && !float ==> has_shape(after, ty, TyData::Error) && reported(
                        w.st.diagnostics,
                        after.st.diagnostics,
                        "InvalidGenericOperation",
                        e.span,
                    )
                },
            }
        }),
{
    reveal(World::end_unary);
    reveal(World::report);
    lemma_kind_of(w, cx, operand_ty, BuiltinType::Int);
    lemma_kind_of(w, cx, operand_ty, BuiltinType::Float);
    law_builtin_types(w, BuiltinType::Int);
    law_builtin_types(w, BuiltinType::Float);
    law_coercion(w, cx, operand, operand_ty, bool_ty());
}

/// Awaiting a task gives what the task gives; awaiting anything else but a
/// tuple is reported, and so is a tuple with an element that is no task.
pub proof fn law_await_types(w: World, e: Expr, task: TyId, output: TyId)
    requires
        w.wf(),
    ensures
        w.data(task) == TyData::Task(output) ==> w.end_await(e, task) == (w, output),
        w.data(task) == TyData::Error ==> w.end_await(e, task) == (w, error_ty()),
        !(w.data(task) is Task) && !(w.data(task) is Tuple) && !(w.data(task) is Error)
            ==> w.end_await(e, task).1 == error_ty() && reported(
            w.st.diagnostics,
            w.end_await(e, task).0.st.diagnostics,
            "AwaitRequiresAsyncCall",
            e.span,
        ),
{
    reveal(World::end_await);
    reveal(World::report);
}

/// Each type of a list is the task of the type at the same position of another.
pub open spec fn are_tasks(w: World, tasks: Seq<TyId>, outputs: Seq<TyId>) -> bool {
    &&& tasks.len() == outputs.len()
    &&& forall|i: int|
        0 <= i < tasks.len() ==> w.data(#[trigger] tasks[i]) == TyData::Task(outputs[i])
}

proof fn lemma_task_outputs(w: World, tasks: Chain<TyId>)
    requires
        w.wf(),
    ensures
        ({
            let (outputs, valid) = task_outputs(w, tasks);
            &&& outputs.seq().len() == tasks.seq().len()
            &&& valid <==> forall|i: int|
                0 <= i < tasks.seq().len() ==> w.data(#[trigger] tasks.seq()[i]) is Task
            &&& valid ==> are_tasks(w, tasks.seq(), outputs.seq())
            &&& all_below(outputs, w.types.len() as int)
        }),
    decreases tasks,
{
    law_builtin_types(w, BuiltinType::Bool);
    if tasks is Link {
        let last = tasks->0.item;
        let rest = tasks.without_last();
        lemma_task_outputs(w, rest);
        let (before, valid) = task_outputs(w, rest);
        let (outputs, all) = task_outputs(w, tasks);
        assert(tasks.seq() == rest.seq().push(last));
        let output = outputs->0.item;
        assert(outputs.seq() == before.seq().push(output));
        if last.0 < w.types.len() {
            assert(parts_below(w.types[last.0 as int], last.0 as int));
        }
        assert(tasks.seq()[rest.seq().len() as int] == last);
        assert forall|i: int| 0 <= i < rest.seq().len() implies tasks.seq()[i]
            == #[trigger] rest.seq()[i] && outputs.seq()[i] == before.seq()[i] by {}
        if all {
            assert forall|i: int| 0 <= i < tasks.seq().len() implies w.data(
                #[trigger] tasks.seq()[i],
            ) == TyData::Task(outputs.seq()[i]) by {
                if i < rest.seq().len() {
                    assert(rest.seq()[i] == tasks.seq()[i]);
                }
            }
        } else if !valid {
            let i = choose|i: int|
                0 <= i < rest.seq().len() && !(w.data(#[trigger] rest.seq()[i]) is Task);
            assert(tasks.seq()[i] == rest.seq()[i]);
        } else {
            assert(!(w.data(tasks.seq()[rest.seq().len() as int]) is Task));
        }
        if valid {
            assert forall|i: int| 0 <= i < rest.seq().len() implies w.data(
                #[trigger] rest.seq()[i],
            ) is Task by {}
        }
    }
}

/// Awaiting a tuple of tasks gives the tuple of what they give, each at its
/// position; if one is no task, that is reported.
pub proof fn law_await_tuples(w: World, e: Expr, task: TyId, tasks: Chain<TyId>)
    requires
        w.wf(),
        has_room(w, 1),
        w.data(task) == TyData::Tuple(tasks),
    ensures
        ({
            let (after, ty) = w.end_await(e, task);
            let all = forall|i: int|
                0 <= i < tasks.seq().len() ==> w.data(#[trigger] tasks.seq()[i]) is Task;
            &&& all ==> after.st.diagnostics == w.st.diagnostics && match after.data(ty) {
                TyData::Tuple(outputs) => are_tasks(w, tasks.seq(), outputs.seq()),
                _ => false,
            }
            &&& !all ==> reported(
                w.st.diagnostics,
                after.st.diagnostics,
                "AwaitRequiresAsyncCall",
                e.span,
            )
        }),
{
    reveal(World::end_await);
    reveal(World::report);
    lemma_task_outputs(w, tasks);
    law_made_types(w, TyData::Tuple(task_outputs(w, tasks).0));
}

/// `?` on a result gives the value of the result, and its error must be exactly
/// the error of what the body returns; on anything else it is reported.
pub proof fn law_propagation_types(
    w: World,
    cx: &Context,
    e: Expr,
    value: Expr,
    operand: TyId,
    ok: TyId,
    error: TyId,
)
    ensures
        w.data(operand) == (TyData::Result { ok, error }) ==> w.end_propagate(
            cx,
            e,
            value,
            operand,
        ).1 == ok,
        w.data(operand) is Error ==> w.end_propagate(cx, e, value, operand) == (w, error_ty()),
        !(w.data(operand) is Result) && !(w.data(operand) is Error) ==> w.end_propagate(
            cx,
            e,
            value,
            operand,
        ).1 == error_ty() && reported(
            w.st.diagnostics,
            w.end_propagate(cx, e, value, operand).0.st.diagnostics,
            "PropagationRequiresResult",
            e.span,
        ),
        match w.data(cx.environment.return_ty) {
            TyData::Result { ok: _, error: returned } => if returned == error {
                w.check_propagated_error(cx, e, error) == w
            } else {
                reported(
                    w.st.diagnostics,
                    w.check_propagated_error(cx, e, error).st.diagnostics,
                    "PropagationErrorTypeMismatch",
                    e.span,
                )
            },
            TyData::Error => w.check_propagated_error(cx, e, error) == w,
            _ => reported(
                w.st.diagnostics,
                w.check_propagated_error(cx, e, error).st.diagnostics,
                "PropagationRequiresResultReturn",
                e.span,
            ),
        },
{
    reveal(World::end_propagate);
    reveal(World::check_propagated_error);
    reveal(World::report);
}

/// Joining a list of tasks of `output`: all of them give a task of the list of
/// outputs, settling them a task of the list of their outcomes, the race a task
/// of the outcome of one, and any a task of the output of one.
pub proof fn law_joined_lists(w: World, e: Expr, mode: TaskIntrinsic, element: TyId, output: TyId)
    requires
        w.wf(),
        has_room(w, 3),
        w.data(element) == TyData::Task(output),
        mode == TaskIntrinsic::All || mode == TaskIntrinsic::Any || mode == TaskIntrinsic::Race
            || mode == TaskIntrinsic::Settled,
    ensures
        ({
            let (after, ty) = w.join_list(e, mode, element);
            &&& after.st == w.st
            &&& match after.data(ty) {
                TyData::Task(given) => match mode {
                    TaskIntrinsic::All => has_shape(after, given, TyData::List(output)),
                    TaskIntrinsic::Settled => match after.data(given) {
                        TyData::List(one) => has_shape(after, one, TyData::TaskOutcome(output)),
                        _ => false,
                    },
                    TaskIntrinsic::Race => has_shape(after, given, TyData::TaskOutcome(output)),
                    _ => given == output,
                },
                _ => false,
            }
        }),
{
    reveal(World::join_list);
    assert(parts_below(w.types[element.0 as int], element.0 as int));
    law_made_types(w, TyData::List(output));
    law_made_types(w, TyData::TaskOutcome(output));
    law_made_types(w, TyData::Task(output));
    let (listed, list) = w.intern(TyData::List(output));
    law_made_types(listed, TyData::Task(list));
    assert(ty_data(listed.intern(TyData::Task(list)).0.types, list) == ty_data(listed.types, list));
    let (known, outcome) = w.intern(TyData::TaskOutcome(output));
    law_made_types(known, TyData::Task(outcome));
    assert(ty_data(known.intern(TyData::Task(outcome)).0.types, outcome) == ty_data(
        known.types,
        outcome,
    ));
    law_made_types(known, TyData::List(outcome));
    let (both, outcomes) = known.intern(TyData::List(outcome));
    law_made_types(both, TyData::Task(outcomes));
    let last = both.intern(TyData::Task(outcomes)).0;
    assert(ty_data(both.types, outcome) == ty_data(known.types, outcome));
    assert(ty_data(last.types, outcome) == ty_data(both.types, outcome));
    assert(ty_data(last.types, outcomes) == ty_data(both.types, outcomes));
}

/// A list of anything but tasks cannot be joined.
pub proof fn law_only_tasks_are_joined(w: World, e: Expr, mode: TaskIntrinsic, element: TyId)
    requires
        !(w.data(element) is Task),
    ensures
        w.join_list(e, mode, element).1 == error_ty(),
        reported(
            w.st.diagnostics,
            w.join_list(e, mode, element).0.st.diagnostics,
            "TaskJoinRequiresTasks",
            e.span,
        ),
{
    reveal(World::join_list);
    reveal(World::report);
}

/// `sleep` takes milliseconds or a duration.
pub proof fn law_sleep_takes_time(w: World, argument: Expr, actual: TyId)
    ensures
        ({
            let after = w.end_sleep_argument(argument, actual);
            if w.data(actual) == TyData::Builtin(BuiltinType::Int) || w.data(actual)
                == TyData::Builtin(BuiltinType::Duration) {
                after == w
            } else {
                reported(w.st.diagnostics, after.st.diagnostics, "TypeMismatch", argument.span)
            }
        }),
{
    reveal(World::end_sleep_argument);
    reveal(World::report);
}

/// Where both branches of an `if` come to an end, their types are joined; where
/// one never does, the other's type is the type of the whole.
pub proof fn law_branch_types(
    w: World,
    cx: &Context,
    entry: crate::flow::FlowState,
    then_state: crate::flow::FlowState,
    then_ty: TyId,
    then_diverges: bool,
    else_branch: Expr,
    else_ty: TyId,
)
    ensures
        ({
            let (after, ty) = w.end_if_else(
                cx,
                entry,
                then_state,
                then_ty,
                then_diverges,
                else_branch,
                else_ty,
            );
            let else_diverges = w.expression_diverges(else_branch.id);
            &&& then_diverges && else_diverges ==> ty == never_ty() && after.st.diagnostics
                == w.st.diagnostics && after.st.flow == entry
            &&& then_diverges && !else_diverges ==> ty == else_ty && after == w
            &&& !then_diverges && else_diverges ==> ty == then_ty && after.st.flow == then_state
                && after.st.diagnostics == w.st.diagnostics
            &&& !then_diverges && !else_diverges ==> {
                &&& ty == then_ty || ty == else_ty || ty == error_ty()
                &&& ty == then_ty && then_ty != error_ty() ==> after.st.diagnostics
                    == w.st.diagnostics
                &&& then_ty == else_ty ==> ty == then_ty
                &&& after.st.flow == crate::flow::joined_pair(then_state, w.st.flow)
            }
        }),
{
    reveal(World::end_if_else);
    reveal(World::restored);
    reveal(World::join_types);
    reveal(World::report);
}

} // verus!
