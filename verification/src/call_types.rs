//! The types of calls, as they are found where calls are checked.

use vstd::prelude::*;

use crate::check::{holds_one, list_builtin};
use crate::chain::{lemma_len, Chain};
use crate::diagnostics::reported;
use crate::hir::{Expr, ExprKind};
use crate::ids::{DefId, TyId, TypeRefId};
use crate::methods::{ListMethod, MethodShape};
use crate::patterns::one;
use crate::plans::CallPlan;
use crate::semantics::{BuiltinValue, CallTarget, ReceiverPassing, TaskIntrinsic};
use crate::state::{Context, World};
use crate::steps::{int_ty, unit_ty};
use crate::substitution::Substitution;
use crate::ty::{all_below, error_ty, ty_data, BuiltinType, TyData};
use crate::typing::{has_room, has_shape, law_builtin_types, law_list_get, law_made_types};

verus! {

proof fn lemma_finished(w: World, arguments: Chain<Expr>, skip_first: bool)
    ensures
        w.finish_call_arguments(arguments, skip_first).types == w.types,
        w.finish_call_arguments(arguments, skip_first).st.diagnostics == w.st.diagnostics,
        w.finish_call_arguments(arguments, skip_first).st.semantics == w.st.semantics,
    decreases arguments,
{
    reveal_with_fuel(World::finish_call_arguments, 2);
    if arguments is Link {
        lemma_finished(w, arguments.without_last(), skip_first);
    }
}

/// A call of a builtin is noted as that, and settling it makes no types and
/// reports nothing.
pub proof fn law_settled_builtins(
    w: World,
    e: Expr,
    arguments: Chain<Expr>,
    builtin: BuiltinValue,
    receiver: Option<ReceiverPassing>,
)
    ensures
        ({
            let after = w.settle_builtin(e, arguments, builtin, receiver);
            &&& after.types == w.types
            &&& after.st.diagnostics == w.st.diagnostics
            &&& match after.st.semantics.calls.lookup(e.id.0) {
                Some(call) => call.target == CallTarget::Builtin(builtin) && call.receiver
                    == receiver,
                None => false,
            }
        }),
{
    reveal(World::settle_builtin);
    reveal(World::set_call);
    lemma_finished(w, arguments, false);
}

/// The methods of lists are noted as what they are; only `add` changes the
/// list.
pub proof fn law_list_builtins()
    ensures
        list_builtin(ListMethod::Add) == (BuiltinValue::ListAdd, ReceiverPassing::InOut),
        list_builtin(ListMethod::Length) == (BuiltinValue::ListLength, ReceiverPassing::Value),
        list_builtin(ListMethod::Get) == (BuiltinValue::ListGet, ReceiverPassing::Value),
        list_builtin(ListMethod::ToTextMap) == (
            BuiltinValue::ListToTextMap,
            ReceiverPassing::Value,
        ),
{
}

proof fn lemma_no_type_arguments(
    w: World,
    e: Expr,
    type_arguments: Chain<TypeRefId>,
    text: &'static str,
)
    ensures
        w.reject_type_arguments(e, type_arguments, text).types == w.types,
        type_arguments is Empty ==> w.reject_type_arguments(e, type_arguments, text) == w,
        type_arguments is Link ==> reported(
            w.st.diagnostics,
            w.reject_type_arguments(e, type_arguments, text).st.diagnostics,
            "TypeMismatch",
            e.span,
        ),
{
    reveal(World::reject_type_arguments);
    reveal(World::report);
}

/// The type of `list.length()` is the integer, of `list.add(value)` the unit,
/// and of `list.get(index)`, on a list of `element`, the option of `element`
/// wherever `element` carries no task.
pub proof fn law_list_calls(
    w: World,
    cx: &Context,
    e: Expr,
    receiver: Expr,
    element: TyId,
    method: ListMethod,
    type_arguments: Chain<TypeRefId>,
    arguments: Chain<Expr>,
)
    requires
        method == ListMethod::Get ==> ({
            let inside = w.check_fixed_arguments(cx, e, arguments, one(int_ty()), false);
            let asked = inside.has_task_obligation(cx, element).0;
            asked.wf() && has_room(asked, 1) && element.0 < asked.types.len()
        }),
    ensures
        ({
            let (after, ty) = w.check_list_method_call(
                cx,
                e,
                receiver,
                element,
                method,
                type_arguments,
                arguments,
            );
            match method {
                ListMethod::Length => ty == int_ty(),
                ListMethod::Add => ty == unit_ty(),
                ListMethod::Get => {
                    let inside = w.check_fixed_arguments(cx, e, arguments, one(int_ty()), false);
                    if inside.has_task_obligation(cx, element).1 {
                        ty == error_ty()
                    } else {
                        has_shape(after, ty, TyData::Option(element)) && ty != element
                    }
                },
                ListMethod::ToTextMap => true,
            }
        }),
        match w.check_list_method_call(
            cx,
            e,
            receiver,
            element,
            method,
            type_arguments,
            arguments,
        ).0.st.semantics.calls.lookup(e.id.0) {
            Some(call) => call.target == CallTarget::Builtin(list_builtin(method).0),
            None => false,
        },
{
    let (inner, ty) = match method {
        ListMethod::Add => (w.check_list_add(cx, e, receiver, element, arguments), unit_ty()),
        ListMethod::Length => (
            w.check_arity(e.span, Chain::<()>::Empty, arguments),
            int_ty(),
        ),
        ListMethod::Get => w.check_fixed_arguments(
            cx,
            e,
            arguments,
            one(int_ty()),
            false,
        ).end_list_get(cx, receiver, element),
        ListMethod::ToTextMap => w.check_arity(
            e.span,
            Chain::<()>::Empty,
            arguments,
        ).list_to_map(cx, receiver, element),
    };
    let text = "List methods do not accept explicit type arguments";
    lemma_no_type_arguments(inner, e, type_arguments, text);
    let (builtin, passing) = list_builtin(method);
    law_settled_builtins(
        inner.reject_type_arguments(e, type_arguments, text),
        e,
        arguments,
        builtin,
        Some(passing),
    );
    if method == ListMethod::Get {
        let inside = w.check_fixed_arguments(cx, e, arguments, one(int_ty()), false);
        law_list_get(inside, cx, receiver, element);
    }
}

/// `Some(value)` is the option of the type of the value.
pub proof fn law_some_calls(
    w: World,
    cx: &Context,
    e: Expr,
    arguments: Chain<Expr>,
    expected: Option<TyId>,
)
    requires
        ({
            let (inside, element) = w.check_first(cx, arguments, w.option_element(expected));
            inside.wf() && has_room(inside, 1) && element.0 < inside.types.len()
        }),
    ensures
        ({
            let (inside, element) = w.check_first(cx, arguments, w.option_element(expected));
            let (after, ty) = w.check_some_call(cx, e, arguments, expected);
            &&& arguments.seq().len() == 1 ==> has_shape(after, ty, TyData::Option(element))
                && after.st == inside.st
            &&& arguments.seq().len() != 1 ==> ty == error_ty() && reported(
                w.st.diagnostics,
                after.st.diagnostics,
                "TypeMismatch",
                e.span,
            )
        }),
{
    let (inside, element) = w.check_first(cx, arguments, w.option_element(expected));
    law_made_types(inside, TyData::Option(element));
    lemma_one(arguments);
    crate::calling::law_arity(w, e.span, one(()), arguments);
    lemma_one(one(()));
}

proof fn lemma_one<T>(list: Chain<T>)
    ensures
        holds_one(list) <==> list.seq().len() == 1,
        forall|item: T| (#[trigger] one(item)).seq().len() == 1,
{
    lemma_len(list);
    assert forall|item: T| (#[trigger] one(item)).seq().len() == 1 by {
        reveal_with_fuel(Chain::<_>::seq, 3);
    }
    if list is Link {
        lemma_len(list.without_last());
    }
}

/// `Ok(value)` and `Err(value)` are of the result type that is asked for.
pub proof fn law_result_calls(
    w: World,
    cx: &Context,
    e: Expr,
    builtin: BuiltinValue,
    arguments: Chain<Expr>,
    expected: TyId,
)
    requires
        arguments.seq().len() == 1,
        w.data(expected) is Result,
    ensures
        ({
            let (after, ty) = w.check_result_constructor_call(
                cx,
                e,
                builtin,
                arguments,
                Some(expected),
            );
            let asked = if builtin == BuiltinValue::ResultOk {
                w.data(expected)->Result_ok
            } else {
                w.data(expected)->Result_error
            };
            ty == expected && after == w.check_first(cx, arguments, Some(asked)).0
        }),
{
    reveal(World::result_payload);
    lemma_one(arguments);
}

/// Sleeping gives a task of nothing.
pub proof fn law_sleep_calls(w: World, cx: &Context, e: Expr, arguments: Chain<Expr>)
    requires
        ({
            let (after, ty) = w.check_sleep(cx, e, arguments);
            after.wf() && after.types.len() < u32::MAX
        }),
        crate::ty::types_wf(w.check_sleep_types(cx, e, arguments)),
    ensures
        ({
            let (after, ty) = w.check_sleep(cx, e, arguments);
            has_shape(after, ty, TyData::Task(unit_ty()))
        }),
{
    let counted = w.check_arity(e.span, one(()), arguments);
    let inside = match crate::plans::first_of(arguments) {
        Some(argument) => {
            let (next, ty) = counted.check_first(cx, arguments, None);
            next.end_sleep_argument(argument, ty)
        },
        None => counted,
    };
    let done = inside.finish_call_arguments(arguments, false);
    lemma_finished(inside, arguments, false);
    law_builtin_types(done, BuiltinType::Unit);
    law_made_types(done, TyData::Task(unit_ty()));
}

impl World {
    /// The table before the task of a sleep is made.
    pub open spec fn check_sleep_types(
        self,
        cx: &Context,
        e: Expr,
        arguments: Chain<Expr>,
    ) -> Seq<TyData> {
        let counted = self.check_arity(e.span, one(()), arguments);
        match crate::plans::first_of(arguments) {
            Some(argument) => {
                let (next, ty) = counted.check_first(cx, arguments, None);
                next.end_sleep_argument(argument, ty).types
            },
            None => counted.types,
        }
    }
}

/// A method of a map gives what its shape says, unless it would hand out a
/// value with a task: then it is in error. The length and the test for a key
/// are always allowed.
pub proof fn law_map_calls(
    w: World,
    cx: &Context,
    e: Expr,
    receiver: Expr,
    arguments: Chain<Expr>,
    method: MethodShape,
    carries_task: bool,
)
    ensures
        ({
            let (after, ty) = w.end_text_map(cx, e, receiver, arguments, method, carries_task);
            let harmless = method.builtin == BuiltinValue::TextMapLength || method.builtin
                == BuiltinValue::TextMapContains;
            &&& !carries_task || harmless ==> ty == method.result && after == w
            &&& carries_task && !harmless ==> ty == error_ty()
        }),
{
    reveal(World::end_text_map);
}

/// A method of a text, of bytes, of a path or of a duration gives what its
/// shape says, and is noted as what it is.
pub proof fn law_value_calls(
    w: World,
    cx: &Context,
    e: Expr,
    receiver: Expr,
    method: MethodShape,
    type_arguments: Chain<TypeRefId>,
    arguments: Chain<Expr>,
)
    ensures
        ({
            let (after, ty) = w.check_builtin_value_method_call(
                cx,
                e,
                receiver,
                method,
                type_arguments,
                arguments,
            );
            &&& ty == method.result
            &&& match after.st.semantics.calls.lookup(e.id.0) {
                Some(call) => call.target == CallTarget::Builtin(method.builtin) && call.receiver
                    == Some(method.passing),
                None => false,
            }
        }),
{
    let mutable = method.passing == ReceiverPassing::InOut;
    let (inside, scope) = w.reject_type_arguments(
        e,
        type_arguments,
        "standard value methods do not accept explicit type arguments",
    ).require_mutable(receiver, mutable, "Bytes.add requires a mutable `var` receiver").begin_inout(
        cx,
        receiver.id,
        receiver.span,
        mutable,
    );
    let done = inside.check_fixed_arguments(cx, e, arguments, method.params, false).end_inout(
        scope,
        receiver.span,
    );
    law_settled_builtins(done, e, arguments, method.builtin, Some(method.passing));
}

/// A name that is not callable, or stands for nothing, cannot be called: that
/// is reported, and the call is in error.
pub proof fn law_uncallable_names(
    w: World,
    cx: &Context,
    e: Expr,
    expected: Option<TyId>,
    callee: Expr,
)
    requires
        match e.kind {
            ExprKind::Call { callee: found, type_arguments: _, arguments: _ } => *found == callee,
            _ => false,
        },
    ensures
        ({
            let (after, ty) = w.check_call(cx, e, expected);
            match w.call_plan(cx, callee) {
                CallPlan::NotCallable => ty == error_ty() && reported(
                    w.st.diagnostics,
                    after.st.diagnostics,
                    "TypeMismatch",
                    e.span,
                ),
                CallPlan::Unknown(_) => ty == error_ty() && reported(
                    w.st.diagnostics,
                    after.st.diagnostics,
                    "UnknownName",
                    e.span,
                ),
                CallPlan::Unnamed => ty == error_ty(),
                _ => true,
            }
        }),
{
    reveal(World::report);
}

/// An assignment is of no value.
pub proof fn law_assignments_give_nothing(w: World, cx: &Context, e: Expr)
    requires
        e.kind is Assign,
    ensures
        w.check_assignment(cx, e).1 == unit_ty(),
{
}

/// `List[T]()` is a list of `T` and `TextMap[T]()` a map of `T`; without
/// exactly one type that is reported.
pub proof fn law_new_collections(
    w: World,
    cx: &Context,
    e: Expr,
    is_list: bool,
    type_arguments: Chain<TypeRefId>,
    arguments: Chain<Expr>,
)
    requires
        ({
            let counted = w.check_arity(e.span, Chain::<()>::Empty, arguments);
            let (inside, explicit) = counted.resolve_written_types(cx, type_arguments);
            inside.wf() && has_room(inside, 1) && all_below(explicit, inside.types.len() as int)
        }),
    ensures
        ({
            let counted = w.check_arity(e.span, Chain::<()>::Empty, arguments);
            let (inside, explicit) = counted.resolve_written_types(cx, type_arguments);
            let (after, ty) = w.construct_collection(cx, e, is_list, type_arguments, arguments);
            let element = if explicit.seq().len() == 1 {
                explicit.seq()[0]
            } else {
                error_ty()
            };
            &&& has_shape(
                after,
                ty,
                if is_list {
                    TyData::List(element)
                } else {
                    TyData::TextMap(element)
                },
            )
            &&& explicit.seq().len() == 1 ==> after.st.diagnostics == inside.st.diagnostics
            &&& explicit.seq().len() != 1 ==> reported(
                inside.st.diagnostics,
                after.st.diagnostics,
                "TypeMismatch",
                e.span,
            )
        }),
{
    reveal(World::construct_collection);
    reveal(World::wrong_collection);
    reveal(World::report);
    let counted = w.check_arity(e.span, Chain::<()>::Empty, arguments);
    let (inside, explicit) = counted.resolve_written_types(cx, type_arguments);
    lemma_len(explicit);
    reveal_with_fuel(Chain::<_>::seq, 3);
    reveal_with_fuel(all_below, 3);
    law_builtin_types(inside, BuiltinType::Unit);
    let told = inside.wrong_collection(e, is_list);
    let element = if explicit.seq().len() == 1 {
        explicit.seq()[0]
    } else {
        error_ty()
    };
    let shape = if is_list {
        TyData::List(element)
    } else {
        TyData::TextMap(element)
    };
    law_made_types(inside, shape);
    law_made_types(told, shape);
    let builtin = if is_list {
        BuiltinValue::ListNew
    } else {
        BuiltinValue::TextMapNew
    };
    law_settled_builtins(inside.intern(shape).0, e, arguments, builtin, None);
    law_settled_builtins(told.intern(shape).0, e, arguments, builtin, None);
}

/// Waiting for all of several tasks gives a task of the tuple of their
/// outputs; for any of them, which must all give the same, a task of that.
pub proof fn law_joined_tasks(w: World, e: Expr, mode: TaskIntrinsic, arguments: Chain<TyId>)
    requires
        ({
            let (inside, outputs) = w.join_outputs(e, arguments);
            inside.wf() && has_room(inside, 2) && all_below(outputs, inside.types.len() as int)
        }),
    ensures
        ({
            let (inside, outputs) = w.join_outputs(e, arguments);
            let (after, ty) = w.join_fixed(e, mode, arguments);
            &&& mode == TaskIntrinsic::All ==> match after.data(ty) {
                TyData::Task(given) => has_shape(after, given, TyData::Tuple(outputs)),
                _ => false,
            }
            &&& mode == TaskIntrinsic::Any && crate::steps::all_are(
                outputs,
                crate::steps::first_ty(outputs),
            ) ==> after.data(ty) == TyData::Task(crate::steps::first_ty(outputs))
                && after.st.diagnostics == inside.st.diagnostics
            &&& mode == TaskIntrinsic::Any && !crate::steps::all_are(
                outputs,
                crate::steps::first_ty(outputs),
            ) ==> reported(
                inside.st.diagnostics,
                after.st.diagnostics,
                "HeterogeneousFirstTaskJoin",
                e.span,
            )
        }),
{
    reveal(World::join_fixed);
    reveal(World::report);
    let (inside, outputs) = w.join_outputs(e, arguments);
    law_made_types(inside, TyData::Tuple(outputs));
    let (tuple, given) = inside.intern(TyData::Tuple(outputs));
    law_made_types(tuple, TyData::Task(given));
    assert(ty_data(tuple.intern(TyData::Task(given)).0.types, given) == ty_data(
        tuple.types,
        given,
    ));
    let first = crate::steps::first_ty(outputs);
    law_builtin_types(inside, BuiltinType::Unit);
    lemma_first_below(outputs, inside.types.len() as int);
    law_made_types(inside, TyData::Task(first));
    let told = inside.text_error(
        "HeterogeneousFirstTaskJoin",
        "Task.any and Task.race require one common result type",
        e.span,
    );
    law_made_types(told, TyData::Task(first));
}

proof fn lemma_first_below(list: Chain<TyId>, limit: int)
    requires
        all_below(list, limit),
        limit > 0,
    ensures
        crate::steps::first_ty(list).0 < limit,
    decreases list,
{
    if list is Link {
        lemma_first_below(list.without_last(), limit);
    }
}

/// A variant that is made is of its enumeration's type, with the type
/// arguments that were found for it.
pub proof fn law_variant_types(
    w: World,
    cx: &Context,
    e: Expr,
    variant: DefId,
    owner: DefId,
    substitution: Substitution,
)
    requires
        w.wf(),
        has_room(w, 1),
        all_below(
            w.inferred_arguments(
                e.span,
                cx.program.type_params_of(owner),
                substitution,
                false,
            ).1,
            w.types.len() as int,
        ),
    ensures
        ({
            let (inside, arguments) = w.inferred_arguments(
                e.span,
                cx.program.type_params_of(owner),
                substitution,
                false,
            );
            let (after, ty) = w.end_variant(
                cx,
                e,
                variant,
                owner,
                Chain::Empty,
                Chain::Empty,
                substitution,
            );
            &&& has_shape(after, ty, TyData::Nominal { definition: owner, arguments })
            &&& after.st.diagnostics == inside.st.diagnostics
            &&& match after.st.semantics.calls.lookup(e.id.0) {
                Some(call) => call.target == CallTarget::EnumVariant(variant) && call.substitution
                    == substitution,
                None => false,
            }
        }),
{
    reveal(World::end_variant);
    reveal_with_fuel(World::coerce_payload, 2);
    reveal(World::set_call);
    let (inside, arguments) = w.inferred_arguments(
        e.span,
        cx.program.type_params_of(owner),
        substitution,
        false,
    );
    lemma_inferred_types(w, e, cx.program.type_params_of(owner), substitution);
    law_made_types(inside, TyData::Nominal { definition: owner, arguments });
}

proof fn lemma_inferred_types(
    w: World,
    e: Expr,
    params: Chain<crate::ids::GenericParamId>,
    substitution: Substitution,
)
    ensures
        w.inferred_arguments(e.span, params, substitution, false).0.types == w.types,
    decreases params,
{
    reveal_with_fuel(World::inferred_arguments, 2);
    reveal(World::report);
    if params is Link {
        lemma_inferred_types(w, e, params.without_last(), substitution);
    }
}

} // verus!
