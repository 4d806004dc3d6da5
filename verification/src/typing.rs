//! The types of calls of the methods and functions that are built in.

use vstd::prelude::*;

use crate::chain::Chain;
use crate::diagnostics::reported;
use crate::growth::lemma_interned;
use crate::hir::Expr;
use crate::ids::{DefId, Span, TyId};
use crate::methods::{fault_accessor, list_method, pair_value, ListMethod, MethodShape};
use crate::semantics::{BuiltinValue, ConstructionCheck, ReceiverPassing};
use crate::state::{Context, World};
use crate::symbolic::ProofResult;
use crate::steps::{bool_ty, int_ty, text_ty, unit_ty};
use crate::ty::{
    all_below, builtin_ty, error_ty, first_types, law_intern, parts_below, ty_data, BuiltinType,
    TyData,
};

verus! {

/// The table has room for this many more types.
pub open spec fn has_room(w: World, count: int) -> bool {
    w.types.len() + count <= u32::MAX
}

/// `ty` is a type of the table of `w`, and has this shape there.
pub open spec fn has_shape(w: World, ty: TyId, data: TyData) -> bool {
    ty.0 < w.types.len() && w.types[ty.0 as int] == data
}

/// `ty` is the builtin type.
pub open spec fn is_builtin(w: World, ty: TyId, builtin: BuiltinType) -> bool {
    has_shape(w, ty, TyData::Builtin(builtin))
}

/// A type of a shape that is made has that shape, is a type of the table, and
/// is none of its own parts; the types that were there keep their shapes.
pub proof fn law_made_types(w: World, data: TyData)
    requires
        w.wf(),
        has_room(w, 1),
        parts_below(data, w.types.len() as int),
    ensures
        ({
            let (after, ty) = w.intern(data);
            &&& after.wf()
            &&& has_shape(after, ty, data)
            &&& after.st == w.st
            &&& w.types.len() <= after.types.len() <= w.types.len() + 1
            &&& forall|old: TyId|
                old.0 < w.types.len() ==> #[trigger] ty_data(after.types, old) == ty_data(
                    w.types,
                    old,
                )
            &&& parts_below(data, ty.0 as int)
        }),
{
    law_intern(w.types, data);
    lemma_interned(w.types, data);
    let (after, ty) = w.intern(data);
    if ty.0 < after.types.len() {
        assert(after.types[ty.0 as int] == data);
        assert(parts_below(after.types[ty.0 as int], ty.0 as int));
    }
    if !w.types.contains(data) {
        assert(ty.0 < after.types.len());
    }
}

/// The builtin types are where they are looked for.
pub proof fn law_builtin_types(w: World, builtin: BuiltinType)
    requires
        w.wf(),
    ensures
        is_builtin(w, builtin_ty(builtin), builtin),
        is_builtin(w, unit_ty(), BuiltinType::Unit),
        is_builtin(w, bool_ty(), BuiltinType::Bool),
        is_builtin(w, int_ty(), BuiltinType::Int),
        is_builtin(w, text_ty(), BuiltinType::Text),
        has_shape(w, error_ty(), TyData::Error),
{
    assert(w.types[builtin_ty(builtin).0 as int] == first_types()[builtin_ty(builtin).0 as int]);
    assert(w.types[unit_ty().0 as int] == first_types()[unit_ty().0 as int]);
    assert(w.types[bool_ty().0 as int] == first_types()[bool_ty().0 as int]);
    assert(w.types[int_ty().0 as int] == first_types()[int_ty().0 as int]);
    assert(w.types[text_ty().0 as int] == first_types()[text_ty().0 as int]);
    assert(w.types[0] == first_types()[0]);
}

/// The type of `list.get(index)` on a list of `element` is the option of
/// `element`, and never `element` itself. An element with a task in it cannot
/// be read: that is an error, and the call has the error type.
pub proof fn law_list_get(w: World, cx: &Context, receiver: Expr, element: TyId)
    requires
        ({
            let asked = w.has_task_obligation(cx, element).0;
            asked.wf() && has_room(asked, 1) && element.0 < asked.types.len()
        }),
    ensures
        ({
            let (asked, carries) = w.has_task_obligation(cx, element);
            let (after, ty) = w.end_list_get(cx, receiver, element);
            if carries {
                ty == error_ty()
            } else {
                &&& has_shape(after, ty, TyData::Option(element))
                &&& ty != element
                &&& after.st == asked.st
                &&& after.wf()
            }
        }),
{
    reveal(World::end_list_get);
    let asked = w.has_task_obligation(cx, element).0;
    law_made_types(asked, TyData::Option(element));
}

/// Reading an element with a task in it is reported at the list, before the
/// list's own task is consumed.
pub proof fn law_list_get_of_tasks(w: World, cx: &Context, receiver: Expr, element: TyId)
    requires
        w.has_task_obligation(cx, element).1,
    ensures
        ({
            let asked = w.has_task_obligation(cx, element).0;
            exists|told: World|
                reported(
                    asked.st.diagnostics,
                    told.st.diagnostics,
                    "TaskContainerExtractionUnsupported",
                    receiver.span,
                ) && told.st.flow == asked.st.flow && told.types == asked.types && w.end_list_get(
                    cx,
                    receiver,
                    element,
                ) == (#[trigger] told.consume_task_obligation(cx, receiver), error_ty())
        }),
{
    reveal(World::end_list_get);
    reveal(World::report);
    let asked = w.has_task_obligation(cx, element).0;
    let told = asked.text_error(
        "TaskContainerExtractionUnsupported",
        "List.get cannot extract a Task-carrying element before container ownership transfer is available",
        receiver.span,
    );
    assert(told.st.flow == asked.st.flow && told.types == asked.types);
    assert(w.end_list_get(cx, receiver, element) == (
        told.consume_task_obligation(cx, receiver),
        error_ty(),
    ));
}

/// A pair of a text and a value of type `value`.
pub open spec fn text_pair(value: TyId) -> TyData {
    TyData::Tuple(Chain::Empty.pushed(text_ty()).pushed(value))
}

/// A list of pairs of a text and a value becomes a map of the values, or the
/// text that occurs twice; no other list becomes a map.
pub proof fn law_list_to_map(w: World, cx: &Context, receiver: Expr, element: TyId, value: TyId)
    requires
        ({
            let asked = w.has_task_obligation(cx, value).0;
            asked.wf() && has_room(asked, 2) && value.0 < asked.types.len()
        }),
    ensures
        ({
            let (asked, carries) = w.has_task_obligation(cx, value);
            let (after, ty) = w.list_to_map(cx, receiver, element);
            if w.data(element) == text_pair(value) {
                if carries {
                    ty == error_ty() && reported(
                        asked.st.diagnostics,
                        after.st.diagnostics,
                        "TaskContainerExtractionUnsupported",
                        receiver.span,
                    )
                } else {
                    &&& after.st == asked.st
                    &&& match after.data(ty) {
                        TyData::Result { ok, error } => has_shape(after, ok, TyData::TextMap(value))
                            && is_builtin(after, error, BuiltinType::Text),
                        _ => false,
                    }
                }
            } else {
                true
            }
        }),
        (forall|any: TyId|
            w.data(element) != #[trigger] text_pair(any)) ==> w.list_to_map(cx, receiver, element).1 == error_ty() && reported(
            w.st.diagnostics,
            w.list_to_map(cx, receiver, element).0.st.diagnostics,
            "TypeMismatch",
            receiver.span,
        ),
{
    reveal(World::list_to_map);
    reveal(World::report);
    let asked = w.has_task_obligation(cx, value).0;
    law_made_types(asked, TyData::TextMap(value));
    let (between, table) = asked.intern(TyData::TextMap(value));
    law_builtin_types(between, BuiltinType::Text);
    law_made_types(between, TyData::Result { ok: table, error: text_ty() });
    let (after, _) = between.intern(TyData::Result { ok: table, error: text_ty() });
    law_builtin_types(after, BuiltinType::Text);
    assert(ty_data(after.types, table) == ty_data(between.types, table));
    match pair_value(w.data(element)) {
        Some(found) => {
            assert(w.data(element) == text_pair(found));
        },
        None => {},
    }
}

/// The method takes these types and gives this one.
pub open spec fn takes_and_gives(
    method: Option<MethodShape>,
    builtin: BuiltinValue,
    params: Seq<TyId>,
    result: TyId,
) -> bool {
    match method {
        Some(found) => {
            &&& found.builtin == builtin
            &&& found.passing == ReceiverPassing::Value
            &&& found.params.seq() == params
            &&& found.result == result
        },
        None => false,
    }
}

/// The method takes these types and gives a type of this shape.
pub open spec fn takes_and_makes(
    w: World,
    method: Option<MethodShape>,
    builtin: BuiltinValue,
    params: Seq<TyId>,
    result: TyData,
) -> bool {
    match method {
        Some(found) => takes_and_gives(method, builtin, params, found.result) && has_shape(
            w,
            found.result,
            result,
        ),
        None => false,
    }
}

/// What the methods of a map of `value` take and give: `get` gives an option
/// of the value, `insert` and `remove` a map of the same values, `entry_at` an
/// option of a pair of the key and the value.
pub proof fn law_text_map_methods(w: World, value: TyId, name: Seq<char>)
    requires
        w.wf(),
        has_room(w, 2),
        value.0 < w.types.len(),
    ensures
        ({
            let (after, method) = w.text_map_method(value, name);
            &&& after.st == w.st
            &&& name == "length"@ ==> takes_and_gives(
                method,
                BuiltinValue::TextMapLength,
                seq![],
                int_ty(),
            )
            &&& name == "contains"@ ==> takes_and_gives(
                method,
                BuiltinValue::TextMapContains,
                seq![text_ty()],
                bool_ty(),
            )
            &&& name == "get"@ ==> takes_and_makes(
                after,
                method,
                BuiltinValue::TextMapGet,
                seq![text_ty()],
                TyData::Option(value),
            )
            &&& name == "entry_at"@ ==> match method {
                Some(found) => match after.data(found.result) {
                    TyData::Option(entry) => has_shape(
                        after,
                        entry,
                        text_pair(value),
                    ) && takes_and_gives(
                        method,
                        BuiltinValue::TextMapEntryAt,
                        seq![int_ty()],
                        found.result,
                    ),
                    _ => false,
                },
                None => false,
            }
            &&& name == "insert"@ ==> takes_and_makes(
                after,
                method,
                BuiltinValue::TextMapInsert,
                seq![text_ty(), value],
                TyData::TextMap(value),
            )
            &&& name == "remove"@ ==> takes_and_makes(
                after,
                method,
                BuiltinValue::TextMapRemove,
                seq![text_ty()],
                TyData::TextMap(value),
            )
            &&& method is Some ==> name == "length"@ || name == "contains"@ || name == "get"@
                || name == "entry_at"@ || name == "insert"@ || name == "remove"@
        }),
{
    reveal(World::text_map_method);
    reveal_strlit("length");
    reveal_strlit("contains");
    reveal_strlit("get");
    reveal_strlit("entry_at");
    reveal_strlit("insert");
    reveal_strlit("remove");
    assert("length"@[0] == 'l' && "insert"@[0] == 'i' && "remove"@[0] == 'r');
    assert("contains"@[0] == 'c' && "entry_at"@[0] == 'e');
    law_made_types(w, TyData::Option(value));
    law_made_types(w, TyData::TextMap(value));
    law_builtin_types(w, BuiltinType::Text);
    let pair = text_pair(value);
    assert(all_below(Chain::Empty.pushed(text_ty()).pushed(value), w.types.len() as int)) by {
        reveal_with_fuel(all_below, 4);
    }
    law_made_types(w, pair);
    let (between, entry) = w.intern(pair);
    law_made_types(between, TyData::Option(entry));
    let (after, result) = between.intern(TyData::Option(entry));
    assert(ty_data(after.types, entry) == ty_data(between.types, entry));
    let none: Chain<TyId> = Chain::Empty;
    assert(none.seq() =~= seq![]);
    assert(none.pushed(text_ty()).seq() =~= seq![text_ty()]);
    assert(none.pushed(int_ty()).seq() =~= seq![int_ty()]);
    assert(none.pushed(text_ty()).pushed(value).seq() =~= seq![text_ty(), value]);
}

/// What the methods of a text, of bytes, of a path and of a duration take and
/// give. Only `add` of bytes changes its receiver.
pub proof fn law_value_methods(w: World, cx: &Context, span: Span, name: Seq<char>)
    requires
        w.wf(),
        has_room(w, 1),
    ensures
        ({
            let (after, method) = w.value_method(cx, span, BuiltinType::Text, name);
            &&& name == "length"@ ==> takes_and_gives(
                method,
                BuiltinValue::TextLength,
                seq![],
                int_ty(),
            )
            &&& name == "get"@ ==> takes_and_makes(
                after,
                method,
                BuiltinValue::TextGet,
                seq![int_ty()],
                TyData::Option(text_ty()),
            )
            &&& name == "concat"@ ==> takes_and_gives(
                method,
                BuiltinValue::TextConcat,
                seq![text_ty()],
                text_ty(),
            )
            &&& name == "contains"@ ==> takes_and_gives(
                method,
                BuiltinValue::TextContains,
                seq![text_ty()],
                bool_ty(),
            )
            &&& name == "encode_utf8"@ ==> takes_and_gives(
                method,
                BuiltinValue::TextEncodeUtf8,
                seq![],
                builtin_ty(BuiltinType::Bytes),
            )
            &&& method is Some ==> name == "length"@ || name == "get"@ || name == "concat"@ || name
                == "contains"@ || name == "encode_utf8"@
        }),
        ({
            let (after, method) = w.value_method(cx, span, BuiltinType::Bytes, name);
            &&& name == "length"@ ==> takes_and_gives(
                method,
                BuiltinValue::BytesLength,
                seq![],
                int_ty(),
            )
            &&& name == "get"@ ==> takes_and_makes(
                after,
                method,
                BuiltinValue::BytesGet,
                seq![int_ty()],
                TyData::Option(int_ty()),
            )
            &&& name == "append"@ ==> takes_and_gives(
                method,
                BuiltinValue::BytesAppend,
                seq![builtin_ty(BuiltinType::Bytes)],
                builtin_ty(BuiltinType::Bytes),
            )
            &&& name == "add"@ ==> match method {
                Some(found) => found.builtin == BuiltinValue::BytesAdd && found.passing
                    == ReceiverPassing::InOut && found.params.seq() == seq![int_ty()]
                    && found.result == unit_ty(),
                None => false,
            }
            &&& name == "decode_utf8"@ ==> match method {
                Some(found) => found.builtin == BuiltinValue::BytesDecodeUtf8 && found.passing
                    == ReceiverPassing::Value && found.params is Empty,
                None => false,
            }
            &&& method is Some ==> name == "length"@ || name == "get"@ || name == "append"@ || name
                == "add"@ || name == "decode_utf8"@
        }),
        ({
            let (after, method) = w.value_method(cx, span, BuiltinType::Path, name);
            &&& name == "as_text"@ ==> takes_and_gives(
                method,
                BuiltinValue::PathAsText,
                seq![],
                text_ty(),
            )
            &&& name == "join"@ ==> match method {
                Some(found) => found.builtin == BuiltinValue::PathJoin && found.passing
                    == ReceiverPassing::Value && found.params.seq() == seq![
                    builtin_ty(BuiltinType::Path),
                ],
                None => false,
            }
            &&& method is Some ==> name == "as_text"@ || name == "join"@
        }),
        ({
            let (after, method) = w.value_method(cx, span, BuiltinType::Duration, name);
            &&& name == "as_milliseconds"@ ==> takes_and_gives(
                method,
                BuiltinValue::DurationAsMilliseconds,
                seq![],
                int_ty(),
            )
            &&& method is Some ==> name == "as_milliseconds"@
        }),
        w.value_method(cx, span, BuiltinType::Int, name) == (w, None::<MethodShape>),
        w.value_method(cx, span, BuiltinType::Bool, name) == (w, None::<MethodShape>),
        w.value_method(cx, span, BuiltinType::Float, name) == (w, None::<MethodShape>),
        w.value_method(cx, span, BuiltinType::Unit, name) == (w, None::<MethodShape>),
{
    reveal(World::value_method);
    reveal_strlit("length");
    reveal_strlit("get");
    reveal_strlit("concat");
    reveal_strlit("contains");
    reveal_strlit("encode_utf8");
    reveal_strlit("append");
    reveal_strlit("add");
    reveal_strlit("decode_utf8");
    reveal_strlit("as_text");
    reveal_strlit("join");
    assert("length"@[0] == 'l' && "concat"@[0] == 'c' && "append"@[0] == 'a');
    assert("get"@[0] == 'g' && "add"@[0] == 'a');
    assert("length"@.len() == 6 && "get"@.len() == 3 && "concat"@.len() == 6);
    assert("contains"@.len() == 8 && "encode_utf8"@.len() == 11 && "append"@.len() == 6);
    assert("add"@.len() == 3 && "decode_utf8"@.len() == 11);
    assert("as_text"@.len() == 7 && "join"@.len() == 4);
    law_builtin_types(w, BuiltinType::Bytes);
    law_made_types(w, TyData::Option(text_ty()));
    law_made_types(w, TyData::Option(int_ty()));
    let none: Chain<TyId> = Chain::Empty;
    assert(none.seq() =~= seq![]);
    assert(none.pushed(text_ty()).seq() =~= seq![text_ty()]);
    assert(none.pushed(int_ty()).seq() =~= seq![int_ty()]);
    assert(none.pushed(builtin_ty(BuiltinType::Bytes)).seq() =~= seq![
        builtin_ty(BuiltinType::Bytes),
    ]);
    assert(none.pushed(builtin_ty(BuiltinType::Path)).seq() =~= seq![
        builtin_ty(BuiltinType::Path),
    ]);
}

/// Each name stands for the list method and the accessor of faults that bear
/// it, and no other name for any.
pub proof fn law_method_names(name: Seq<char>)
    ensures
        list_method(name) == Some(ListMethod::Add) <==> name == "add"@,
        list_method(name) == Some(ListMethod::Length) <==> name == "length"@,
        list_method(name) == Some(ListMethod::Get) <==> name == "get"@,
        list_method(name) == Some(ListMethod::ToTextMap) <==> name == "to_text_map"@,
        fault_accessor(name) == Some(BuiltinValue::TaskFaultCode) <==> name == "code"@,
        fault_accessor(name) == Some(BuiltinValue::TaskFaultMessage) <==> name == "message"@,
        fault_accessor(name) is Some ==> name == "code"@ || name == "message"@,
{
    reveal_strlit("add");
    reveal_strlit("length");
    reveal_strlit("get");
    reveal_strlit("to_text_map");
    reveal_strlit("code");
    reveal_strlit("message");
    assert("add"@.len() == 3 && "length"@.len() == 6 && "get"@.len() == 3);
    assert("to_text_map"@.len() == 11 && "code"@.len() == 4 && "message"@.len() == 7);
    assert("get"@[0] == 'g' && "add"@[0] == 'a');
}

proof fn lemma_listed(first: TyId, second: TyId, third: TyId)
    ensures
        Chain::Empty.pushed(first).seq() == seq![first],
        Chain::Empty.pushed(first).pushed(second).seq() == seq![first, second],
        Chain::Empty.pushed(first).pushed(second).pushed(third).seq() == seq![
            first,
            second,
            third,
        ],
{
    reveal_with_fuel(Chain::<_>::seq, 5);
    let none: Chain<TyId> = Chain::Empty;
    assert(none.pushed(first).seq() =~= seq![first]);
    assert(none.pushed(first).pushed(second).seq() =~= seq![first, second]);
    assert(none.pushed(first).pushed(second).pushed(third).seq() =~= seq![first, second, third]);
}

/// The type of a declaration of the standard library is the nominal type of it;
/// where it is missing, that is reported and the type is in error.
pub proof fn law_standard_types(
    w: World,
    definition: Option<DefId>,
    missing: &'static str,
    span: Span,
)
    requires
        w.wf(),
        has_room(w, 1),
    ensures
        ({
            let (after, ty) = w.canonical_std_type(definition, missing, span);
            match definition {
                Some(found) => after.st == w.st && has_shape(
                    after,
                    ty,
                    TyData::Nominal { definition: found, arguments: Chain::Empty },
                ),
                None => ty == error_ty() && reported(
                    w.st.diagnostics,
                    after.st.diagnostics,
                    "MissingStandardLibraryItem",
                    span,
                ),
            }
        }),
        w.canonical_std_type(definition, missing, span).0.wf(),
        w.canonical_std_type(definition, missing, span).1.0 < w.canonical_std_type(
            definition,
            missing,
            span,
        ).0.types.len(),
        w.canonical_std_type(definition, missing, span).0.types.len() <= w.types.len() + 1,
{
    reveal(World::canonical_std_type);
    reveal(World::report);
    law_builtin_types(w, BuiltinType::Unit);
    match definition {
        Some(found) => law_made_types(
            w,
            TyData::Nominal { definition: found, arguments: Chain::Empty },
        ),
        None => {},
    }
}

/// What the builtin functions take.
pub proof fn law_builtin_parameters(w: World, cx: &Context, builtin: BuiltinValue, span: Span)
    requires
        w.wf(),
        has_room(w, 2),
    ensures
        ({
            let (after, params) = w.builtin_params(cx, builtin, span);
            match builtin {
                BuiltinValue::FloatFormat
                | BuiltinValue::FloatIsFinite
                | BuiltinValue::FloatToIntStatus => after == w && params.seq() == seq![
                    builtin_ty(BuiltinType::Float),
                ],
                BuiltinValue::IntToFloat
                | BuiltinValue::ProcessArgumentAt
                | BuiltinValue::DurationMilliseconds => after == w && params.seq() == seq![
                    int_ty(),
                ],
                BuiltinValue::ProcessArgumentCount => after == w && params is Empty,
                BuiltinValue::SocketConnect | BuiltinValue::SocketTryConnect => after == w
                    && params.seq() == seq![text_ty(), int_ty()],
                BuiltinValue::FloatParseStatus
                | BuiltinValue::ProcessEnvironment
                | BuiltinValue::FileOpenRead
                | BuiltinValue::FileCreate
                | BuiltinValue::FileTryOpenRead
                | BuiltinValue::FileTryCreate
                | BuiltinValue::StdoutWrite => after == w && params.seq() == seq![text_ty()],
                BuiltinValue::LogWrite => params.seq().len() == 3 && params.seq()[1] == text_ty()
                    && has_shape(after, params.seq()[2], TyData::TextMap(text_ty())) && match (
                    cx.canonical_std_items.log_level
                ) {
                    Some(level) => after.data(params.seq()[0]) == (TyData::Nominal {
                        definition: level,
                        arguments: Chain::Empty,
                    }),
                    None => params.seq()[0] == error_ty(),
                },
                BuiltinValue::IoErrorKind | BuiltinValue::IoErrorMessage => params.seq().len() == 1
                    && match cx.canonical_std_items.io_error {
                    Some(error) => after.data(params.seq()[0]) == (TyData::Nominal {
                        definition: error,
                        arguments: Chain::Empty,
                    }),
                    None => params.seq()[0] == error_ty(),
                },
                _ => true,
            }
        }),
{
    reveal(World::builtin_params);
    reveal(World::io_error_type);
    law_standard_types(
        w,
        cx.canonical_std_items.io_error,
        "required canonical standard-library item `std.io.IoError` is missing",
        span,
    );
    let text = "required canonical standard-library item `std.log.LogLevel` is missing";
    law_standard_types(w, cx.canonical_std_items.log_level, text, span);
    let (found, level) = w.canonical_std_type(cx.canonical_std_items.log_level, text, span);
    law_builtin_types(found, BuiltinType::Text);
    law_made_types(found, TyData::TextMap(text_ty()));
    let (after, fields) = found.intern(TyData::TextMap(text_ty()));
    assert(ty_data(after.types, level) == ty_data(found.types, level));
    lemma_listed(text_ty(), int_ty(), int_ty());
    lemma_listed(int_ty(), int_ty(), int_ty());
    lemma_listed(builtin_ty(BuiltinType::Float), int_ty(), int_ty());
    lemma_listed(level, text_ty(), fields);
    lemma_listed(w.io_error_type(cx, span).1, int_ty(), int_ty());
}

/// What the builtin functions give: opening a resource gives a task of it, and
/// trying to a task of the resource or of the error.
pub proof fn law_builtin_results(w: World, cx: &Context, builtin: BuiltinValue, span: Span)
    requires
        w.wf(),
        has_room(w, 4),
    ensures
        ({
            let (after, ty) = w.builtin_result(cx, builtin, span);
            match builtin {
                BuiltinValue::FloatFormat
                | BuiltinValue::ProcessArgumentAt
                | BuiltinValue::IoErrorMessage => after == w && ty == text_ty(),
                BuiltinValue::FloatIsFinite => after == w && ty == bool_ty(),
                BuiltinValue::IntToFloat => after == w && is_builtin(after, ty, BuiltinType::Float),
                BuiltinValue::ProcessArgumentCount => after == w && ty == int_ty(),
                BuiltinValue::DurationMilliseconds => after == w && is_builtin(
                    after,
                    ty,
                    BuiltinType::Duration,
                ),
                BuiltinValue::LogWrite | BuiltinValue::StdoutWrite => after == w && ty == unit_ty(),
                BuiltinValue::ProcessEnvironment => has_shape(
                    after,
                    ty,
                    TyData::Option(text_ty()),
                ),
                BuiltinValue::FloatParseStatus => match after.data(ty) {
                    TyData::Tuple(parts) => parts.seq() == seq![
                        builtin_ty(BuiltinType::Float),
                        int_ty(),
                    ],
                    _ => false,
                },
                BuiltinValue::FloatToIntStatus => match after.data(ty) {
                    TyData::Tuple(parts) => parts.seq() == seq![int_ty(), int_ty()],
                    _ => false,
                },
                BuiltinValue::FileOpenRead | BuiltinValue::FileCreate => match after.data(ty) {
                    TyData::Task(given) => is_standard(after, given, cx.canonical_std_items.file),
                    _ => false,
                },
                BuiltinValue::SocketConnect => match after.data(ty) {
                    TyData::Task(given) => is_standard(after, given, cx.canonical_std_items.socket),
                    _ => false,
                },
                BuiltinValue::FileTryOpenRead | BuiltinValue::FileTryCreate => is_attempt(
                    after,
                    cx,
                    ty,
                    cx.canonical_std_items.file,
                ),
                BuiltinValue::SocketTryConnect => is_attempt(
                    after,
                    cx,
                    ty,
                    cx.canonical_std_items.socket,
                ),
                BuiltinValue::IoErrorKind => is_standard(
                    after,
                    ty,
                    cx.canonical_std_items.io_error_kind,
                ),
                _ => true,
            }
        }),
{
    reveal(World::builtin_result);
    reveal(World::file_type);
    reveal(World::socket_type);
    law_builtin_types(w, BuiltinType::Float);
    law_builtin_types(w, BuiltinType::Duration);
    law_made_types(w, TyData::Option(text_ty()));
    let none: Chain<TyId> = Chain::Empty;
    let float = builtin_ty(BuiltinType::Float);
    let parsed = none.pushed(float).pushed(int_ty());
    lemma_listed(float, int_ty(), int_ty());
    lemma_listed(int_ty(), int_ty(), int_ty());
    assert(all_below(parsed, w.types.len() as int) && all_below(
        none.pushed(int_ty()).pushed(int_ty()),
        w.types.len() as int,
    )) by {
        reveal_with_fuel(all_below, 4);
    }
    law_made_types(w, TyData::Tuple(parsed));
    law_made_types(w, TyData::Tuple(none.pushed(int_ty()).pushed(int_ty())));
    lemma_standard(
        w,
        cx,
        cx.canonical_std_items.file,
        "required canonical standard-library item `std.file.File` is missing",
        span,
    );
    lemma_standard(
        w,
        cx,
        cx.canonical_std_items.socket,
        "required canonical standard-library item `std.net.Socket` is missing",
        span,
    );
    law_standard_types(
        w,
        cx.canonical_std_items.io_error_kind,
        "required canonical standard-library item `std.io.IoErrorKind` is missing",
        span,
    );
}

/// The type is the nominal type of a declaration of the standard library, or in
/// error where that is missing.
pub open spec fn is_standard(w: World, ty: TyId, definition: Option<DefId>) -> bool {
    match definition {
        Some(found) => has_shape(
            w,
            ty,
            TyData::Nominal { definition: found, arguments: Chain::Empty },
        ),
        None => ty == error_ty(),
    }
}

/// The type is a task of a resource or of the error of not getting it.
pub open spec fn is_attempt(w: World, cx: &Context, ty: TyId, resource: Option<DefId>) -> bool {
    match w.data(ty) {
        TyData::Task(result) => match w.data(result) {
            TyData::Result { ok, error } => is_standard(w, ok, resource) && is_standard(
                w,
                error,
                cx.canonical_std_items.io_error,
            ),
            _ => false,
        },
        _ => false,
    }
}

/// The task that opens a resource, or fails, is a task of the resource or of
/// the error of input and output.
pub proof fn law_attempts(w: World, cx: &Context, resource: TyId, span: Span)
    requires
        w.wf(),
        has_room(w, 3),
        resource.0 < w.types.len(),
    ensures
        ({
            let (after, ty) = w.try_resource_task(cx, resource, span);
            &&& after.wf()
            &&& after.types.len() <= w.types.len() + 3
            &&& after.data(resource) == w.data(resource)
            &&& match after.data(ty) {
                TyData::Task(result) => match after.data(result) {
                    TyData::Result { ok, error } => ok == resource && is_standard(
                        after,
                        error,
                        cx.canonical_std_items.io_error,
                    ),
                    _ => false,
                },
                _ => false,
            }
        }),
{
    reveal(World::try_resource_task);
    reveal(World::io_error_type);
    law_builtin_types(w, BuiltinType::Unit);
    law_standard_types(
        w,
        cx.canonical_std_items.io_error,
        "required canonical standard-library item `std.io.IoError` is missing",
        span,
    );
    let (one, error) = w.io_error_type(cx, span);
    reveal(World::canonical_std_type);
    match cx.canonical_std_items.io_error {
        Some(found) => law_made_types(
            w,
            TyData::Nominal { definition: found, arguments: Chain::Empty },
        ),
        None => reveal(World::report),
    }
    assert(ty_data(one.types, resource) == ty_data(w.types, resource));
    law_made_types(one, TyData::Result { ok: resource, error });
    let (two, result) = one.intern(TyData::Result { ok: resource, error });
    law_made_types(two, TyData::Task(result));
    let (three, ty) = two.intern(TyData::Task(result));
    assert(ty_data(two.types, error) == ty_data(one.types, error));
    assert(ty_data(three.types, error) == ty_data(two.types, error));
    assert(ty_data(three.types, result) == ty_data(two.types, result));
    assert(ty_data(two.types, resource) == ty_data(one.types, resource));
    assert(ty_data(three.types, resource) == ty_data(two.types, resource));
}

proof fn lemma_standard(
    w: World,
    cx: &Context,
    definition: Option<DefId>,
    missing: &'static str,
    span: Span,
)
    requires
        w.wf(),
        has_room(w, 4),
    ensures
        ({
            let (found, resource) = w.canonical_std_type(definition, missing, span);
            let (opened, task) = found.intern(TyData::Task(resource));
            let (tried, attempt) = found.try_resource_task(cx, resource, span);
            &&& match opened.data(task) {
                TyData::Task(given) => is_standard(opened, given, definition),
                _ => false,
            }
            &&& is_attempt(tried, cx, attempt, definition)
        }),
{
    law_standard_types(w, definition, missing, span);
    let (found, resource) = w.canonical_std_type(definition, missing, span);
    law_made_types(found, TyData::Task(resource));
    let (opened, task) = found.intern(TyData::Task(resource));
    assert(ty_data(opened.types, resource) == ty_data(found.types, resource));
    law_attempts(found, cx, resource, span);
}

/// What the methods of an open file or socket take and give: reading gives a
/// task of a text, writing takes a text and gives a task of nothing, and trying
/// to a task of that or of the error.
pub proof fn law_resource_methods(w: World, cx: &Context, builtin: BuiltinValue, span: Span)
    requires
        w.wf(),
        has_room(w, 3),
    ensures
        ({
            let (after, method) = w.resource_shape(cx, builtin, span);
            &&& method.builtin == builtin
            &&& match builtin {
                BuiltinValue::FileReadText | BuiltinValue::SocketReadText => method.params is Empty
                    && has_shape(after, method.result, TyData::Task(text_ty())),
                BuiltinValue::FileWriteText | BuiltinValue::SocketWriteText => method.params.seq()
                    == seq![text_ty()] && has_shape(
                    after,
                    method.result,
                    TyData::Task(unit_ty()),
                ),
                BuiltinValue::FileTryReadText | BuiltinValue::SocketTryReadText =>
                    method.params is Empty && is_trial(after, cx, method.result, text_ty()),
                BuiltinValue::FileTryWriteText | BuiltinValue::SocketTryWriteText =>
                    method.params.seq() == seq![text_ty()] && is_trial(
                    after,
                    cx,
                    method.result,
                    unit_ty(),
                ),
                BuiltinValue::FileClose | BuiltinValue::SocketClose => method.params is Empty
                    && method.result == unit_ty(),
                _ => true,
            }
        }),
{
    reveal(World::resource_shape);
    law_builtin_types(w, BuiltinType::Text);
    law_made_types(w, TyData::Task(text_ty()));
    law_made_types(w, TyData::Task(unit_ty()));
    law_attempts(w, cx, text_ty(), span);
    law_attempts(w, cx, unit_ty(), span);
    lemma_listed(text_ty(), text_ty(), text_ty());
}

/// The type is a task of this type or of the error of input and output.
pub open spec fn is_trial(w: World, cx: &Context, ty: TyId, given: TyId) -> bool {
    match w.data(ty) {
        TyData::Task(result) => match w.data(result) {
            TyData::Result { ok, error } => ok == given && is_standard(
                w,
                error,
                cx.canonical_std_items.io_error,
            ),
            _ => false,
        },
        _ => false,
    }
}

/// Making a value of a constrained type gives that type where the predicate is
/// proved, the type or a constraint error where it is not known, and an error
/// is reported where it is disproved. The check is noted accordingly.
pub proof fn law_constrained_values(
    w: World,
    cx: &Context,
    e: Expr,
    definition: DefId,
    argument: Expr,
    base: TyId,
)
    requires
        ({
            let (asked, verdict) = w.refinement_proof(cx, definition, argument);
            let again = asked.has_task_obligation(cx, base).0;
            again.wf() && has_room(again, 2)
        }),
    ensures
        ({
            let (asked, verdict) = w.refinement_proof(cx, definition, argument);
            let (again, carries) = asked.has_task_obligation(cx, base);
            let (after, ty) = w.end_refined(cx, e, definition, argument, base);
            let nominal = TyData::Nominal { definition, arguments: Chain::Empty };
            match verdict {
                ProofResult::Proven => has_shape(after, ty, nominal) && after.st.diagnostics
                    == again.st.diagnostics && after.st.semantics.construction_checks.lookup(e.id.0)
                    == Some(ConstructionCheck::Proven),
                ProofResult::Disproven => ty == error_ty() && (!carries ==> reported(
                    again.st.diagnostics,
                    after.st.diagnostics,
                    "ConstraintUnsatisfied",
                    e.span,
                )),
                ProofResult::Unknown => if carries {
                    ty == error_ty()
                } else {
                    &&& after.st.diagnostics == again.st.diagnostics
                    &&& after.st.semantics.construction_checks.lookup(e.id.0) == Some(
                        ConstructionCheck::Runtime,
                    )
                    &&& match after.data(ty) {
                        TyData::Result { ok, error } => has_shape(after, ok, nominal)
                            && is_builtin(after, error, BuiltinType::ConstraintError),
                        _ => false,
                    }
                },
            }
        }),
{
    reveal(World::end_refined);
    reveal(World::set_construction);
    reveal(World::set_call);
    reveal(World::report);
    let asked = w.refinement_proof(cx, definition, argument).0;
    let again = asked.has_task_obligation(cx, base).0;
    let nominal = TyData::Nominal { definition, arguments: Chain::Empty };
    law_made_types(again, nominal);
    let (named, ty) = again.intern(nominal);
    law_builtin_types(named, BuiltinType::ConstraintError);
    let wrong = builtin_ty(BuiltinType::ConstraintError);
    law_made_types(named, TyData::Result { ok: ty, error: wrong });
    let (last, _) = named.intern(TyData::Result { ok: ty, error: wrong });
    law_builtin_types(last, BuiltinType::ConstraintError);
    assert(ty_data(last.types, ty) == ty_data(named.types, ty));
}

} // verus!
