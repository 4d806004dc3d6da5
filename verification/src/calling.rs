//! What calls, names, fields and assignments ask for, and the types that they
//! have.

use vstd::prelude::*;

use crate::calls::type_for;
use crate::chain::{lemma_len, Chain};
use crate::diagnostics::reported;
use crate::hir::{DefinitionKind, Expr, Literal, RecordFieldValue};
use crate::ids::{DefId, GenericParamId, LocalId, ParamId, Span, TyId};
use crate::literals::literal_int;
use crate::records::{field_name, value_named, FieldActual};
use crate::semantics::{ConstructionCheck, Place, PlaceRoot, Resolution, Signature};
use crate::state::{Context, World};
use crate::steps::unit_ty;
use crate::substitution::{law_substitution_reads_last_insert, Substitution};
use crate::symbolic::ProofResult;
use crate::ty::{builtin_ty, error_ty, BuiltinType, Mutability, TyData};
use crate::typing::{has_room, has_shape, is_builtin, law_builtin_types, law_made_types};
use crate::unify::paired;

verus! {

/// A call is accepted without a word exactly if it has as many arguments as
/// there are parameters.
pub proof fn law_arity<A, B>(w: World, span: Span, expected: Chain<A>, actual: Chain<B>)
    ensures
        expected.seq().len() == actual.seq().len() ==> w.check_arity(span, expected, actual) == w,
        expected.seq().len() != actual.seq().len() ==> reported(
            w.st.diagnostics,
            w.check_arity(span, expected, actual).st.diagnostics,
            "TypeMismatch",
            span,
        ),
{
    reveal(World::check_arity);
    reveal(World::call_arity);
    reveal(World::report);
    lemma_len(expected);
    lemma_len(actual);
}

/// The type that is declared for an argument is the one at its own position;
/// the receiver, where it is an argument, has none.
pub proof fn law_argument_types<A>(list: Chain<TyId>, before: Chain<A>, skip_first: bool)
    requires
        !skip_first || before.seq().len() > 0,
    ensures
        ({
            let position = before.seq().len() - if skip_first {
                1int
            } else {
                0
            };
            type_for(list, before, skip_first) == if position < list.seq().len() {
                Some(list.seq()[position])
            } else {
                None
            }
        }),
    decreases list,
{
    lemma_len(list);
    lemma_len(before);
    if list is Link {
        let rest = list.without_last();
        lemma_len(rest);
        law_argument_types(rest, before, skip_first);
        assert(list.seq() == rest.seq().push(list->0.item));
    }
}

/// A call of a function that waits gives a task of what the function returns;
/// any other gives that itself.
pub proof fn law_async_calls(w: World, cx: &Context, span: Span, is_async: bool, output: TyId)
    requires
        ({
            let asked = w.has_task_obligation(cx, output).0;
            asked.wf() && has_room(asked, 1) && output.0 < asked.types.len()
        }),
    ensures
        ({
            let (asked, carries) = w.has_task_obligation(cx, output);
            let (after, ty) = w.finish_async_call(cx, span, is_async, output);
            &&& !is_async ==> ty == output && after == w
            &&& is_async ==> has_shape(after, ty, TyData::Task(output)) && ty != output
            &&& is_async && !carries ==> after.st == asked.st
            &&& is_async && carries ==> reported(
                asked.st.diagnostics,
                after.st.diagnostics,
                "TaskAsyncResultUnsupported",
                span,
            )
        }),
{
    reveal(World::finish_async_call);
    reveal(World::report);
    let asked = w.has_task_obligation(cx, output).0;
    law_made_types(asked, TyData::Task(output));
    let told = asked.text_error(
        "TaskAsyncResultUnsupported",
        "an instantiated async callable cannot complete with a Task-carrying result before runtime reparenting is available",
        span,
    );
    law_made_types(told, TyData::Task(output));
}

/// A method that changes its receiver needs a receiver that can be changed.
pub proof fn law_mutable_receivers(w: World, receiver: Expr, needed: bool, text: &'static str)
    ensures
        ({
            let after = w.require_mutable(receiver, needed, text);
            let can = match w.place_of(receiver.id) {
                Some(place) => place.mutability == Mutability::Mutable,
                None => false,
            };
            &&& needed && !can ==> reported(
                w.st.diagnostics,
                after.st.diagnostics,
                "MutReceiverRequiresVar",
                receiver.span,
            )
            &&& !needed || can ==> after == w
        }),
{
    reveal(World::require_mutable);
    reveal(World::report);
}

/// The cleanup of a resource cannot be called by hand.
pub proof fn law_no_manual_dispose(w: World, cx: &Context, requirement: DefId, span: Span)
    ensures
        ({
            let after = w.reject_explicit_dispose_call(cx, requirement, span);
            &&& cx.canonical_concepts.dispose_requirement == Some(requirement) ==> reported(
                w.st.diagnostics,
                after.st.diagnostics,
                "ManualDisposeOfScopedValue",
                span,
            )
            &&& cx.canonical_concepts.dispose_requirement != Some(requirement) ==> after == w
        }),
{
    reveal(World::reject_explicit_dispose_call);
    reveal(World::report);
}

/// How many of the parameters have no type.
pub open spec fn open_params(params: Chain<GenericParamId>, substitution: Substitution) -> nat
    decreases params,
{
    match params {
        Chain::Empty => 0,
        Chain::Link(link) => open_params(link.rest, substitution) + if substitution.lookup(
            link.item,
        ) is None {
            1nat
        } else {
            0nat
        },
    }
}

/// Each generic parameter that a call leaves open is reported, and nothing
/// else.
pub proof fn law_inferred_parameters(
    w: World,
    span: Span,
    params: Chain<GenericParamId>,
    substitution: Substitution,
)
    ensures
        ({
            let after = w.report_uninferred(span, params, substitution);
            &&& after.st.diagnostics.spec_len() == w.st.diagnostics.spec_len() + open_params(
                params,
                substitution,
            )
            &&& open_params(params, substitution) == 0 ==> after == w
            &&& after.types == w.types
            &&& after.st.flow == w.st.flow
        }),
    decreases params,
{
    reveal_with_fuel(World::report_uninferred, 2);
    reveal(World::report);
    if params is Link {
        law_inferred_parameters(w, span, params.without_last(), substitution);
    }
}

/// The type arguments of a constructor are those that its parameters have, each
/// at its position; one that is left open is reported and in error.
pub proof fn law_constructor_arguments(
    w: World,
    span: Span,
    params: Chain<GenericParamId>,
    substitution: Substitution,
    of_record: bool,
)
    ensures
        ({
            let (after, list) = w.inferred_arguments(span, params, substitution, of_record);
            &&& list.seq().len() == params.seq().len()
            &&& forall|i: int|
                0 <= i < params.seq().len() ==> list.seq()[i] == match substitution.lookup(
                    #[trigger] params.seq()[i],
                ) {
                    Some(ty) => ty,
                    None => error_ty(),
                }
            &&& after.st.diagnostics.spec_len() == w.st.diagnostics.spec_len() + open_params(
                params,
                substitution,
            )
            &&& open_params(params, substitution) == 0 ==> after == w
        }),
    decreases params,
{
    reveal_with_fuel(World::inferred_arguments, 2);
    reveal(World::report);
    if params is Link {
        let rest = params.without_last();
        let last = params->0.item;
        law_constructor_arguments(w, span, rest, substitution, of_record);
        let before = w.inferred_arguments(span, rest, substitution, of_record).1;
        let list = w.inferred_arguments(span, params, substitution, of_record).1;
        let given = list->0.item;
        assert(list == before.pushed(given));
        assert(list.seq() == before.seq().push(given));
        assert(params.seq() == rest.seq().push(last));
        assert forall|i: int| 0 <= i < params.seq().len() implies list.seq()[i]
            == match substitution.lookup(#[trigger] params.seq()[i]) {
            Some(ty) => ty,
            None => error_ty(),
        } by {
            if i < rest.seq().len() {
                assert(rest.seq()[i] == params.seq()[i]);
            }
        }
    }
}

/// Type arguments are given to parameters position by position.
pub proof fn law_type_arguments(
    params: Chain<GenericParamId>,
    arguments: Chain<TyId>,
    known: Substitution,
    index: int,
)
    requires
        params.seq().len() == arguments.seq().len(),
        0 <= index < params.seq().len(),
        forall|i: int, j: int|
            0 <= i < j < params.seq().len() ==> params.seq()[i] != params.seq()[j],
    ensures
        paired(params, arguments, known).lookup(params.seq()[index]) == Some(
            arguments.seq()[index],
        ),
    decreases params,
{
    lemma_len(params);
    lemma_len(arguments);
    let rest = params.without_last();
    let others = arguments.without_last();
    lemma_len(rest);
    lemma_len(others);
    let last = params->0.item;
    let given = arguments->0.item;
    assert(params.seq() == rest.seq().push(last));
    assert(arguments.seq() == others.seq().push(given));
    law_substitution_reads_last_insert(
        paired(rest, others, known),
        last,
        given,
        params.seq()[index],
    );
    if index < rest.seq().len() {
        assert(rest.seq()[index] == params.seq()[index]);
        assert forall|i: int, j: int| 0 <= i < j < rest.seq().len() implies rest.seq()[i]
            != rest.seq()[j] by {
            assert(params.seq()[i] == rest.seq()[i]);
            assert(params.seq()[j] == rest.seq()[j]);
        }
        assert(params.seq()[index] != params.seq()[rest.seq().len() as int]);
        law_type_arguments(rest, others, known, index);
    }
}

/// A value with a task in it may be handed to a function that does not wait and
/// says that it takes tasks, and to no other.
pub proof fn law_passing_tasks(
    w: World,
    cx: &Context,
    is_async: bool,
    argument: Expr,
    types: crate::calls::Actual,
)
    ensures
        ({
            let (asked, carries) = w.has_task_obligation(cx, types.actual);
            let (again, declared) = asked.has_task_obligation(cx, types.declared);
            let after = w.pass_argument_tasks(cx, is_async, argument, types);
            &&& !carries ==> after == asked
            &&& carries && !is_async && declared ==> after == again.consume_task_obligation(
                cx,
                argument,
            )
            &&& carries && is_async ==> exists|told: World|
                reported(
                    again.st.diagnostics,
                    told.st.diagnostics,
                    "TaskAsyncTransferUnsupported",
                    argument.span,
                ) && after == #[trigger] told.consume_task_obligation(cx, argument)
            &&& carries && !is_async && !declared ==> exists|told: World|
                reported(
                    again.st.diagnostics,
                    told.st.diagnostics,
                    "TaskGenericTransferUnsupported",
                    argument.span,
                ) && after == #[trigger] told.consume_task_obligation(cx, argument)
        }),
{
    reveal(World::pass_argument_tasks);
    reveal(World::report);
    let (asked, carries) = w.has_task_obligation(cx, types.actual);
    let (again, declared) = asked.has_task_obligation(cx, types.declared);
    let after = w.pass_argument_tasks(cx, is_async, argument, types);
    let waiting = again.text_error(
        "TaskAsyncTransferUnsupported",
        "a Task-carrying value cannot cross an async call boundary before runtime reparenting is available",
        argument.span,
    );
    let open = again.text_error(
        "TaskGenericTransferUnsupported",
        "a Task-carrying value cannot pass through an unconstrained generic parameter",
        argument.span,
    );
    if carries && is_async {
        assert(after == waiting.consume_task_obligation(cx, argument));
    } else if carries && !declared {
        assert(after == open.consume_task_obligation(cx, argument));
    }
}

/// Literals have the builtin types of their kinds; one that is outside the
/// range of its type is reported.
pub proof fn law_literal_types(w: World, e: Expr, literal: Literal)
    requires
        w.wf(),
    ensures
        ({
            let (after, ty) = w.check_literal(e, literal);
            match literal {
                Literal::Bool(_) => after == w && is_builtin(after, ty, BuiltinType::Bool),
                Literal::Unit => after == w && is_builtin(after, ty, BuiltinType::Unit),
                Literal::Text(_) => after == w && is_builtin(after, ty, BuiltinType::Text),
                Literal::Int(text) => is_builtin(after, ty, BuiltinType::Int) && match literal_int(
                    text@,
                ) {
                    Some(_) => after == w,
                    None => reported(
                        w.st.diagnostics,
                        after.st.diagnostics,
                        "IntegerLiteralOutOfRange",
                        e.span,
                    ),
                },
                Literal::Float(_, bits) => is_builtin(after, ty, BuiltinType::Float) && (if bits
                    is None || bits == Some(0x7ff0_0000_0000_0000u64) || bits == Some(
                    0xfff0_0000_0000_0000u64,
                ) {
                    reported(
                        w.st.diagnostics,
                        after.st.diagnostics,
                        "FloatLiteralOutOfRange",
                        e.span,
                    )
                } else {
                    after == w
                }),
            }
        }),
{
    reveal(World::check_literal);
    reveal(World::report);
    law_builtin_types(w, BuiltinType::Bool);
    law_builtin_types(w, BuiltinType::Unit);
    law_builtin_types(w, BuiltinType::Text);
    law_builtin_types(w, BuiltinType::Int);
    law_builtin_types(w, BuiltinType::Float);
}

/// `None` has the option type that is asked for; where none is, that is
/// reported.
pub proof fn law_none_types(w: World, e: Expr, expected: Option<TyId>)
    ensures
        ({
            let (after, ty) = w.check_none(e, expected);
            let wanted = match expected {
                Some(found) => w.data(found) is Option,
                None => false,
            };
            &&& wanted ==> Some(ty) == expected && after.st.diagnostics == w.st.diagnostics
            &&& !wanted ==> ty == error_ty() && reported(
                w.st.diagnostics,
                after.st.diagnostics,
                "CannotInferType",
                e.span,
            )
        }),
{
    reveal(World::check_none);
    reveal(World::set_resolution);
    reveal(World::report);
}

/// `self` and `result` have the types that the body is given for them, and are
/// unknown in a body that has none.
pub proof fn law_special_names(w: World, cx: &Context, e: Expr)
    ensures
        match cx.environment.self_ty {
            Some(ty) => w.check_self(cx, e).1 == ty,
            None => w.check_self(cx, e).1 == error_ty() && reported(
                w.st.diagnostics,
                w.check_self(cx, e).0.st.diagnostics,
                "UnknownName",
                e.span,
            ),
        },
        match cx.environment.result_ty {
            Some(ty) => w.check_result(cx, e).1 == ty && w.check_result(cx, e).0.st.diagnostics
                == w.st.diagnostics,
            None => w.check_result(cx, e).1 == error_ty() && reported(
                w.st.diagnostics,
                w.check_result(cx, e).0.st.diagnostics,
                "UnknownName",
                e.span,
            ),
        },
{
    reveal(World::check_self);
    reveal(World::check_result);
    reveal(World::set_resolution);
    reveal(World::report);
}

/// A local has the type that it was bound with, and is the place of that local,
/// which can be changed if the local was declared so.
pub proof fn law_local_names(w: World, cx: &Context, e: Expr, local: LocalId)
    ensures
        ({
            let (after, ty) = w.check_local(cx, e, local);
            &&& match w.st.semantics.local_types.lookup(local.0) {
                Some(found) => ty == found,
                None => ty == error_ty(),
            }
            &&& match after.place_of(e.id) {
                Some(place) => {
                    &&& place.root == PlaceRoot::Local(local)
                    &&& place.projections is Empty
                    &&& place.mutability == Mutability::Mutable <==> match cx.local_of(local) {
                        Some(found) => found.mutable,
                        None => false,
                    }
                },
                None => false,
            }
            &&& after.st.semantics.expression_resolutions.lookup(e.id.0) == Some(
                Resolution::Local(local),
            )
        }),
{
    reveal(World::check_local);
    reveal(World::use_must_scope_local);
    reveal(World::set_resolution);
    reveal(World::read_place);
    reveal(World::set_place);
    reveal(World::check_borrowed_place_use);
    reveal(World::push_borrow_conflict);
    reveal(World::report);
}

/// A parameter is a place that cannot be changed.
pub proof fn law_parameter_names(w: World, cx: &Context, e: Expr, parameter: ParamId, ty: TyId)
    ensures
        ({
            let after = w.check_param(cx, e, parameter, ty);
            &&& match after.place_of(e.id) {
                Some(place) => place.root == PlaceRoot::Param(parameter)
                    && place.projections is Empty && place.mutability == Mutability::ReadOnly,
                None => false,
            }
            &&& after.st.semantics.expression_resolutions.lookup(e.id.0) == Some(
                Resolution::Param(parameter),
            )
        }),
{
    reveal(World::check_param);
    reveal(World::set_resolution);
    reveal(World::read_place);
    reveal(World::set_place);
    reveal(World::check_borrowed_place_use);
    reveal(World::push_borrow_conflict);
    reveal(World::report);
}

/// The name of a constant has the type that the constant is declared with; the
/// name of anything else that is no value is reported.
pub proof fn law_definition_names(
    w: World,
    cx: &Context,
    e: Expr,
    path: crate::hir::Path,
    definition: DefId,
)
    requires
        path.value == crate::hir::Resolved::Found(definition),
    ensures
        ({
            let (after, ty) = w.check_definition_path(cx, e, path);
            match cx.program.kind_of(definition) {
                Some(DefinitionKind::Constant { ty: _, value: _ }) => after.st.diagnostics
                    == w.st.diagnostics && match cx.signature_of(definition) {
                    Some(Signature::Constant { ty: declared }) => ty == declared,
                    _ => ty == error_ty(),
                },
                _ => ty == error_ty() && reported(
                    w.st.diagnostics,
                    after.st.diagnostics,
                    "TypeMismatch",
                    e.span,
                ),
            }
        }),
{
    reveal(World::check_definition_path);
    reveal(World::set_resolution);
    reveal(World::report);
}

/// A place that is not declared to be changed cannot be assigned to, and a
/// field only through `self`.
pub proof fn law_assigned_places(
    w: World,
    cx: &Context,
    target: Expr,
    target_ty: TyId,
    place: Place,
)
    requires
        !w.has_task_obligation(cx, target_ty).1,
        w.st.flow.borrows is Empty,
        place.root != PlaceRoot::SelfValue,
    ensures
        ({
            let (after, dirties) = w.begin_assignment(cx, target, target_ty, place);
            let fixed = place.mutability != Mutability::Mutable;
            let part = place.projections is Link;
            &&& !dirties
            &&& !fixed && !part ==> after.st == w.st
            &&& fixed && !part ==> reported(
                w.st.diagnostics,
                after.st.diagnostics,
                "ImmutableBindingAssignment",
                target.span,
            )
            &&& !fixed && part ==> reported(
                w.st.diagnostics,
                after.st.diagnostics,
                "ReadonlyReceiverMutation",
                target.span,
            )
            &&& after.st.flow == w.st.flow
        }),
{
    reveal(World::begin_assignment);
    reveal(World::carries);
    reveal(World::check_borrowed_place_use);
    reveal(World::report);
}

/// An assignment to all of `self` restores it; one to a part that its invariant
/// speaks of leaves it changed.
pub proof fn law_assignments_to_self(
    w: World,
    cx: &Context,
    e: Expr,
    place: Place,
    target_ty: TyId,
    value: Expr,
    dirties_self: bool,
)
    ensures
        ({
            let after = w.end_assignment(cx, e, place, target_ty, value, dirties_self);
            &&& after.type_of(e.id) == Some(unit_ty())
            &&& place.root == PlaceRoot::SelfValue && place.projections is Empty
                ==> !after.st.flow.self_dirty
            &&& !(place.root == PlaceRoot::SelfValue && place.projections is Empty) && dirties_self
                ==> after.st.flow.self_dirty
        }),
{
    reveal(World::end_assignment);
    reveal(World::set_type);
    reveal(World::set_dirty);
}

/// A bare `return` is for bodies that return nothing, and no cleanup returns.
pub proof fn law_returns(w: World, cx: &Context, bare: bool)
    ensures
        ({
            let after = w.begin_return(cx, bare);
            let cleanup = w.st.cleanup_depth > 0;
            let wrong = bare && cx.environment.return_ty != unit_ty();
            &&& !cleanup && !wrong ==> after == w
            &&& cleanup && !wrong ==> reported(
                w.st.diagnostics,
                after.st.diagnostics,
                "ReturnFromCleanup",
                cx.source.span,
            )
            &&& !cleanup && wrong ==> reported(
                w.st.diagnostics,
                after.st.diagnostics,
                "TypeMismatch",
                cx.source.span,
            )
        }),
{
    reveal(World::begin_return);
    reveal(World::report);
}

/// The type of `receiver.name` is the declared type of the field of that name,
/// with the arguments of the receiver's type for the record's parameters, and
/// its place is that field of the receiver's; a record without the field, or
/// anything but a record, is reported.
pub proof fn law_field_types(
    w: World,
    cx: &Context,
    e: Expr,
    receiver: Expr,
    ty: TyId,
    name: String,
    definition: DefId,
    arguments: Chain<TyId>,
)
    requires
        w.data(ty) == (TyData::Nominal { definition, arguments }),
    ensures
        ({
            let (after, field_ty) = w.end_field(cx, e, receiver, ty, name);
            match cx.program.kind_of(definition) {
                Some(DefinitionKind::Record { generic_params: _, fields, invariant_body: _ }) =>
                    match cx.program.member_named(fields, name@) {
                        Some(field) => match cx.signature_of(field) {
                            Some(Signature::Field { owner: _, ty: declared }) => {
                                &&& after.st.diagnostics == w.st.diagnostics
                                &&& (after.types, field_ty) == crate::substitution::substituted(
                                    w.types,
                                    declared,
                                    paired(
                                        cx.program.type_params_of(definition),
                                        arguments,
                                        Substitution::empty(),
                                    ),
                                )
                                &&& match w.place_of(receiver.id) {
                                    Some(place) => match after.place_of(e.id) {
                                        Some(part) => part.root == place.root && part.mutability
                                            == place.mutability && part.projections
                                            == place.projections.pushed(field),
                                        None => false,
                                    },
                                    None => true,
                                }
                            },
                            _ => field_ty == error_ty(),
                        },
                        None => field_ty == error_ty() && reported(
                            w.st.diagnostics,
                            after.st.diagnostics,
                            "UnknownField",
                            e.span,
                        ),
                    },
                _ => field_ty == error_ty() && reported(
                    w.st.diagnostics,
                    after.st.diagnostics,
                    "UnknownField",
                    e.span,
                ),
            }
        }),
{
    reveal(World::end_field);
    reveal(World::unknown_field);
    reveal(World::set_place);
    reveal(World::report);
}

/// The fields that a record is written with are those that it declares: one
/// that is not written is missing, and has no value.
pub proof fn law_missing_fields(
    w: World,
    cx: &Context,
    e: Expr,
    field: DefId,
    before: Chain<DefId>,
    values: Chain<RecordFieldValue>,
    substitution: Substitution,
)
    ensures
        ({
            let (after, start) = w.begin_field(cx, e, field, before, values, substitution);
            let name = field_name(cx.program, field);
            let written = exists|i: int|
                0 <= i < values.seq().len() && (#[trigger] values.seq()[i]).name@ == name;
            &&& !written ==> start is None && reported(
                w.st.diagnostics,
                after.st.diagnostics,
                "MissingField",
                e.span,
            )
            &&& start is Some ==> written && match cx.signature_of(field) {
                Some(Signature::Field { owner: _, ty }) => start->0.declared == ty,
                _ => false,
            }
        }),
{
    reveal(World::begin_field);
    reveal(World::report);
    lemma_value_named(values, field_name(cx.program, field));
}

proof fn lemma_value_named(values: Chain<RecordFieldValue>, name: Seq<char>)
    ensures
        value_named(values, name) is Some <==> exists|i: int|
            0 <= i < values.seq().len() && (#[trigger] values.seq()[i]).name@ == name,
    decreases values,
{
    if values is Link {
        let last = values->0.item;
        let rest = values.without_last();
        lemma_value_named(rest, name);
        assert(values.seq() == rest.seq().push(last));
        assert(values.seq()[rest.seq().len() as int] == last);
        if value_named(rest, name) is Some {
            let i = choose|i: int|
                0 <= i < rest.seq().len() && (#[trigger] rest.seq()[i]).name@ == name;
            assert(values.seq()[i] == rest.seq()[i]);
        }
        if exists|i: int| 0 <= i < values.seq().len() && (#[trigger] values.seq()[i]).name@ == name {
            let i = choose|i: int|
                0 <= i < values.seq().len() && (#[trigger] values.seq()[i]).name@ == name;
            if i < rest.seq().len() {
                assert(rest.seq()[i] == values.seq()[i]);
            }
        }
    }
}

/// A record whose invariant is proved, or that has none, is of its own type;
/// one whose invariant is not known is that or a constraint error, and one
/// whose invariant is disproved is reported.
pub proof fn law_record_types(
    w: World,
    cx: &Context,
    e: Expr,
    definition: DefId,
    nominal: TyId,
    verdict: Option<ProofResult>,
    carries_task: bool,
    values: Chain<RecordFieldValue>,
    list: Chain<FieldActual>,
)
    requires
        w.wf(),
        has_room(w, 1),
        nominal.0 < w.types.len(),
    ensures
        ({
            let (after, ty) = w.settle_record(
                cx,
                e,
                definition,
                nominal,
                verdict,
                carries_task,
                values,
                list,
            );
            match verdict {
                None => ty == nominal && after == w,
                Some(ProofResult::Proven) => ty == nominal && after.st.diagnostics
                    == w.st.diagnostics && after.st.semantics.construction_checks.lookup(e.id.0)
                    == Some(ConstructionCheck::Proven),
                Some(ProofResult::Disproven) => ty == error_ty() && (!carries_task ==> reported(
                    w.st.diagnostics,
                    after.st.diagnostics,
                    "InvariantUnsatisfied",
                    e.span,
                )),
                Some(ProofResult::Unknown) => if carries_task {
                    ty == error_ty()
                } else {
                    &&& after.st.diagnostics == w.st.diagnostics
                    &&& after.st.semantics.construction_checks.lookup(e.id.0) == Some(
                        ConstructionCheck::Runtime,
                    )
                    &&& match after.data(ty) {
                        TyData::Result { ok, error } => ok == nominal && is_builtin(
                            after,
                            error,
                            BuiltinType::ConstraintError,
                        ),
                        _ => false,
                    }
                },
            }
        }),
{
    reveal(World::settle_record);
    reveal(World::set_construction);
    reveal(World::report);
    let wrong = builtin_ty(BuiltinType::ConstraintError);
    law_builtin_types(w, BuiltinType::ConstraintError);
    law_made_types(w, TyData::Result { ok: nominal, error: wrong });
    law_builtin_types(
        w.intern(TyData::Result { ok: nominal, error: wrong }).0,
        BuiltinType::ConstraintError,
    );
}

/// An empty list is a list of what is asked for; where nothing is, that is
/// reported.
pub proof fn law_empty_lists(w: World, e: Expr, element: Option<TyId>)
    requires
        w.wf(),
        has_room(w, 1),
        match element {
            Some(ty) => ty.0 < w.types.len(),
            None => true,
        },
    ensures
        ({
            let (after, ty) = w.empty_list(e, element);
            match element {
                Some(found) => has_shape(after, ty, TyData::List(found)) && after.st == w.st,
                None => has_shape(after, ty, TyData::List(error_ty())) && reported(
                    w.st.diagnostics,
                    after.st.diagnostics,
                    "CannotInferListElement",
                    e.span,
                ),
            }
        }),
{
    reveal(World::empty_list);
    reveal(World::report);
    law_builtin_types(w, BuiltinType::Unit);
    law_made_types(
        w,
        TyData::List(
            match element {
                Some(found) => found,
                None => error_ty(),
            },
        ),
    );
}

} // verus!
