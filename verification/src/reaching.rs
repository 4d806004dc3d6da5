//! What the names in calls reach, and what bindings bind.

use vstd::prelude::*;

use crate::calls::builtin_of;
use crate::chain::{lemma_len, Chain};
use crate::diagnostics::reported;
use crate::hir::{
    at, CompilerStdPrimitive, DefinitionKind, Expr, ExprKind, Path, Resolved, Segment,
};
use crate::ids::{DefId, LocalId, ParamId, Span, TyId};
use crate::lookup::{is_authorized, is_std_function, param_named, task_intrinsic, visible_local};
use crate::methods::{is_function_builtin, resource_is_file, resource_passing};
use crate::plans::{constructor_named, definition_plan, first_of, CallPlan};
use crate::semantics::{
    BuiltinValue,
    ReceiverPassing,
    ScopedDisposal,
    Signature,
    TaskIntrinsic,
};
use crate::state::{ContractMode, Context, ValuePathLookup, World};
use crate::table::{has_id, law_insert_id};
use crate::ty::TyData;

verus! {

/// The parameter that a name stands for is one of the body's, of that name;
/// there is none only if none of them has it.
pub proof fn law_named_parameters(
    cx: &Context,
    params: Chain<(ParamId, TyId)>,
    name: Seq<char>,
)
    ensures
        match param_named(cx, params, name) {
            Some(found) => params.seq().contains(found) && match at(
                cx.program.params@,
                found.0.0,
            ) {
                Some(declared) => declared.name@ == name,
                None => false,
            },
            None => forall|i: int|
                0 <= i < params.seq().len() ==> match at(
                    cx.program.params@,
                    (#[trigger] params.seq()[i]).0.0,
                ) {
                    Some(declared) => declared.name@ != name,
                    None => true,
                },
        },
    decreases params,
{
    if params is Link {
        let rest = params.without_last();
        let last = params->0.item;
        law_named_parameters(cx, rest, name);
        assert(params.seq() == rest.seq().push(last));
        assert(params.seq()[rest.seq().len() as int] == last);
        match param_named(cx, rest, name) {
            Some(found) => {
                let i = choose|i: int| 0 <= i < rest.seq().len() && rest.seq()[i] == found;
                assert(params.seq()[i] == found);
            },
            None => {
                assert forall|i: int| 0 <= i < rest.seq().len() implies rest.seq()[i]
                    == #[trigger] params.seq()[i] by {}
            },
        }
    }
}

/// A path is bound if it is a word that names a local or a parameter, or if it
/// finds a value; it is missing if it finds nothing.
pub proof fn law_value_paths(w: World, cx: &Context, path: Path)
    ensures
        ({
            let found = w.value_path_lookup(cx, path);
            let own = match path.single() {
                Some(word) => visible_local(cx, w.st.scopes, word.name@) is Some || param_named(
                    cx,
                    cx.environment.params,
                    word.name@,
                ) is Some,
                None => false,
            };
            &&& found == ValuePathLookup::Bound <==> own || path.value is Found
            &&& found == ValuePathLookup::Missing <==> !own && path.value is Missing
        }),
{
    reveal(World::value_path_lookup);
}

/// The tasks' functions and the builtin constructors bear their own names.
pub proof fn law_intrinsic_names(name: Seq<char>)
    ensures
        task_intrinsic(name) == Some(TaskIntrinsic::Sleep) <==> name == "sleep"@,
        task_intrinsic(name) == Some(TaskIntrinsic::All) <==> name == "all"@,
        task_intrinsic(name) == Some(TaskIntrinsic::Settled) <==> name == "settled"@,
        task_intrinsic(name) == Some(TaskIntrinsic::Any) <==> name == "any"@,
        task_intrinsic(name) == Some(TaskIntrinsic::Race) <==> name == "race"@,
        constructor_named(name) == Some(BuiltinValue::OptionSome) <==> name == "Some"@,
        constructor_named(name) == Some(BuiltinValue::ResultOk) <==> name == "Ok"@,
        constructor_named(name) == Some(BuiltinValue::ResultErr) <==> name == "Err"@,
{
    reveal_strlit("sleep");
    reveal_strlit("all");
    reveal_strlit("settled");
    reveal_strlit("any");
    reveal_strlit("race");
    reveal_strlit("Some");
    reveal_strlit("Ok");
    reveal_strlit("Err");
    assert("sleep"@.len() == 5 && "all"@.len() == 3 && "settled"@.len() == 7);
    assert("any"@.len() == 3 && "race"@.len() == 4);
    assert("Some"@.len() == 4 && "Ok"@.len() == 2 && "Err"@.len() == 3);
    assert("all"@[1] == 'l' && "any"@[1] == 'n');
}

/// Each primitive is its own builtin: those of files and sockets work on an
/// open resource of their kind, the rest are functions.
pub proof fn law_primitives(left: CompilerStdPrimitive, right: CompilerStdPrimitive)
    ensures
        builtin_of(left) == builtin_of(right) ==> left == right,
        builtin_of(CompilerStdPrimitive::FloatFromInt) == BuiltinValue::IntToFloat,
        builtin_of(CompilerStdPrimitive::FloatToInt) == BuiltinValue::FloatToIntStatus,
        builtin_of(CompilerStdPrimitive::FloatFormat) == BuiltinValue::FloatFormat,
        builtin_of(CompilerStdPrimitive::FloatIsFinite) == BuiltinValue::FloatIsFinite,
        builtin_of(CompilerStdPrimitive::FloatParseStatus) == BuiltinValue::FloatParseStatus,
        builtin_of(CompilerStdPrimitive::IoWriteStdout) == BuiltinValue::StdoutWrite,
        builtin_of(CompilerStdPrimitive::LogWrite) == BuiltinValue::LogWrite,
        builtin_of(CompilerStdPrimitive::ProcessEnvironment) == BuiltinValue::ProcessEnvironment,
        builtin_of(CompilerStdPrimitive::ProcessArgumentAt) == BuiltinValue::ProcessArgumentAt,
        builtin_of(CompilerStdPrimitive::ProcessArgumentCount)
            == BuiltinValue::ProcessArgumentCount,
        builtin_of(CompilerStdPrimitive::FileOpenRead) == BuiltinValue::FileOpenRead,
        builtin_of(CompilerStdPrimitive::FileCreate) == BuiltinValue::FileCreate,
        builtin_of(CompilerStdPrimitive::FileTryOpenRead) == BuiltinValue::FileTryOpenRead,
        builtin_of(CompilerStdPrimitive::FileTryCreate) == BuiltinValue::FileTryCreate,
        builtin_of(CompilerStdPrimitive::FileReadText) == BuiltinValue::FileReadText,
        builtin_of(CompilerStdPrimitive::FileWriteText) == BuiltinValue::FileWriteText,
        builtin_of(CompilerStdPrimitive::FileClose) == BuiltinValue::FileClose,
        builtin_of(CompilerStdPrimitive::SocketConnect) == BuiltinValue::SocketConnect,
        builtin_of(CompilerStdPrimitive::SocketReadText) == BuiltinValue::SocketReadText,
        builtin_of(CompilerStdPrimitive::SocketWriteText) == BuiltinValue::SocketWriteText,
        builtin_of(CompilerStdPrimitive::SocketClose) == BuiltinValue::SocketClose,
        match left {
            CompilerStdPrimitive::FileReadText
            | CompilerStdPrimitive::FileWriteText
            | CompilerStdPrimitive::FileTryReadText
            | CompilerStdPrimitive::FileTryWriteText
            | CompilerStdPrimitive::FileClose => resource_is_file(builtin_of(left)) == Some(true),
            CompilerStdPrimitive::SocketReadText
            | CompilerStdPrimitive::SocketWriteText
            | CompilerStdPrimitive::SocketTryReadText
            | CompilerStdPrimitive::SocketTryWriteText
            | CompilerStdPrimitive::SocketClose => resource_is_file(builtin_of(left)) == Some(
                false,
            ),
            _ => is_function_builtin(builtin_of(left)) && resource_is_file(builtin_of(left)) is None,
        },
        resource_passing(builtin_of(left)) == ReceiverPassing::InOut <==> left
            == CompilerStdPrimitive::FileClose || left == CompilerStdPrimitive::SocketClose,
{
}

/// The body belongs to the one function of the library with this name, in this
/// module.
pub open spec fn is_body_of(cx: &Context, module: Seq<char>, name: Seq<char>) -> bool {
    let owner = cx.environment.owner;
    &&& owner.0 < cx.program.definitions@.len()
    &&& is_std_function(cx, cx.program.definitions@[owner.0 as int], module, name)
    &&& forall|i: int|
        0 <= i < cx.program.definitions@.len() && i != owner.0 ==> !is_std_function(
            cx,
            #[trigger] cx.program.definitions@[i],
            module,
            name,
        )
}

proof fn lemma_body_of(cx: &Context, module: Seq<char>, name: Seq<char>)
    requires
        crate::lookup::is_unique_std_function(cx, module, name),
    ensures
        is_body_of(cx, module, name),
{
    let accepts = |item: crate::hir::Definition| is_std_function(cx, item, module, name);
    let owner = cx.environment.owner;
    assert(accepts(cx.program.definitions@[owner.0 as int]));
    assert forall|i: int|
        0 <= i < cx.program.definitions@.len() && i != owner.0 implies !is_std_function(
        cx,
        #[trigger] cx.program.definitions@[i],
        module,
        name,
    ) by {
        assert(accepts(cx.program.definitions@[i]) <==> i == owner.0);
    }
}

/// A primitive that opens a resource is called only in the one function of the
/// standard library that is there to open it.
pub proof fn law_primitives_are_guarded(cx: &Context, types: Seq<TyData>)
    ensures
        is_authorized(cx, types, CompilerStdPrimitive::FileOpenRead) ==> is_body_of(
            cx,
            "std.file"@,
            "open_read"@,
        ),
        is_authorized(cx, types, CompilerStdPrimitive::FileCreate) ==> is_body_of(
            cx,
            "std.file"@,
            "create"@,
        ),
        is_authorized(cx, types, CompilerStdPrimitive::FileTryOpenRead) ==> is_body_of(
            cx,
            "std.file"@,
            "try_open_read"@,
        ),
        is_authorized(cx, types, CompilerStdPrimitive::FileTryCreate) ==> is_body_of(
            cx,
            "std.file"@,
            "try_create"@,
        ),
        is_authorized(cx, types, CompilerStdPrimitive::SocketConnect) ==> is_body_of(
            cx,
            "std.net"@,
            "connect"@,
        ),
        is_authorized(cx, types, CompilerStdPrimitive::SocketTryConnect) ==> is_body_of(
            cx,
            "std.net"@,
            "try_connect"@,
        ),
        cx.canonical_std_items.file is None ==> !is_authorized(
            cx,
            types,
            CompilerStdPrimitive::FileReadText,
        ) && !is_authorized(cx, types, CompilerStdPrimitive::FileWriteText) && !is_authorized(
            cx,
            types,
            CompilerStdPrimitive::FileClose,
        ),
        cx.canonical_std_items.socket is None ==> !is_authorized(
            cx,
            types,
            CompilerStdPrimitive::SocketReadText,
        ) && !is_authorized(cx, types, CompilerStdPrimitive::SocketWriteText) && !is_authorized(
            cx,
            types,
            CompilerStdPrimitive::SocketClose,
        ),
{
    if is_authorized(cx, types, CompilerStdPrimitive::FileOpenRead) {
        lemma_body_of(cx, "std.file"@, "open_read"@);
    }
    if is_authorized(cx, types, CompilerStdPrimitive::FileCreate) {
        lemma_body_of(cx, "std.file"@, "create"@);
    }
    if is_authorized(cx, types, CompilerStdPrimitive::FileTryOpenRead) {
        lemma_body_of(cx, "std.file"@, "try_open_read"@);
    }
    if is_authorized(cx, types, CompilerStdPrimitive::FileTryCreate) {
        lemma_body_of(cx, "std.file"@, "try_create"@);
    }
    if is_authorized(cx, types, CompilerStdPrimitive::SocketConnect) {
        lemma_body_of(cx, "std.net"@, "connect"@);
    }
    if is_authorized(cx, types, CompilerStdPrimitive::SocketTryConnect) {
        lemma_body_of(cx, "std.net"@, "try_connect"@);
    }
}

/// A path in a call that finds something callable reaches it; one that finds
/// another value is not callable; one that finds no value but a constrained
/// type makes a value of that type; any other is unknown.
pub proof fn law_called_definitions(
    cx: &Context,
    value: Resolved,
    ty: Resolved,
    path: Chain<Segment>,
)
    ensures
        ({
            let plan = definition_plan(cx, value, ty, path);
            match value {
                Resolved::Found(definition) => match cx.signature_of(definition) {
                    Some(Signature::Callable(signature)) => plan == (CallPlan::Function {
                        definition,
                        signature,
                    }),
                    _ => plan is NotCallable,
                },
                _ => match ty {
                    Resolved::Found(definition) => match cx.program.kind_of(definition) {
                        Some(DefinitionKind::RefinedType { base, predicate: _ }) => plan
                            == (CallPlan::Refined { definition, base }),
                        _ => plan == CallPlan::Unknown(path),
                    },
                    _ => plan == CallPlan::Unknown(path),
                },
            }
        }),
{
}

/// A primitive is reached only by a name that stands for nothing else, in a
/// body that may call it.
pub proof fn law_primitives_are_hidden(w: World, cx: &Context, path: Path)
    ensures
        match w.primitive_call(cx, path) {
            Some(primitive) => path.primitive == Some(primitive) && path.value is Missing
                && is_authorized(cx, w.types, primitive),
            None => w.value_path_lookup(cx, path) != ValuePathLookup::Missing
                || path.primitive is None || !is_authorized(cx, w.types, path.primitive->0),
        },
{
    reveal(World::primitive_call);
    law_value_paths(w, cx, path);
}

/// A name that stands for a value is never read as a namespace or a type.
pub proof fn law_values_hide_namespaces(w: World, cx: &Context, receiver: Expr, method: Seq<char>)
    ensures
        match receiver.kind {
            ExprKind::Path(path) => w.value_path_lookup(cx, path) != ValuePathLookup::Missing
                ==> w.static_plan(cx, receiver, method) is Value && w.named_variant(
                cx,
                receiver,
                method,
            ) is None,
            _ => w.static_plan(cx, receiver, method) is Value && w.named_variant(
                cx,
                receiver,
                method,
            ) is None,
        },
{
    reveal(World::static_plan);
    reveal(World::named_variant);
}

/// `Ok` takes the value type of the result that is asked for, `Err` its error
/// type; where no result is asked for, that is reported.
pub proof fn law_result_payloads(
    w: World,
    e: Expr,
    builtin: BuiltinValue,
    expected: Option<TyId>,
)
    requires
        builtin == BuiltinValue::ResultOk || builtin == BuiltinValue::ResultErr,
    ensures
        ({
            let (after, payload) = w.result_payload(e, builtin, expected);
            match expected {
                Some(asked) => match w.data(asked) {
                    TyData::Result { ok, error } => after == w && payload == (if builtin
                        == BuiltinValue::ResultErr {
                        Some(error)
                    } else {
                        Some(ok)
                    }),
                    _ => payload is None && reported(
                        w.st.diagnostics,
                        after.st.diagnostics,
                        "TypeMismatch",
                        e.span,
                    ),
                },
                None => payload is None && reported(
                    w.st.diagnostics,
                    after.st.diagnostics,
                    "CannotInferType",
                    e.span,
                ),
            }
        }),
{
    reveal(World::result_payload);
    reveal(World::report);
}

/// The first argument of a call is the first.
pub proof fn law_first_argument(arguments: Chain<Expr>)
    ensures
        arguments.seq().len() > 0 ==> first_of(arguments) == Some(arguments.seq()[0]),
        arguments.seq().len() == 0 ==> first_of(arguments) is None,
    decreases arguments,
{
    lemma_len(arguments);
    if arguments is Link {
        let rest = arguments.without_last();
        lemma_len(rest);
        law_first_argument(rest);
        let last = arguments->0.item;
        assert(arguments.seq() == rest.seq().push(last));
    }
}

/// A contract holds only what can be looked at: names, fields, literals,
/// operations, matches and the test for finite floats. Anything else in it is
/// reported; outside contracts everything may stand.
pub proof fn law_contract_expressions(w: World, cx: &Context, e: Expr)
    ensures
        ({
            let after = w.validate_contract_shape(cx, e);
            let effect = match e.kind {
                ExprKind::Assign { target: _, value: _ } => true,
                ExprKind::Await(_) => true,
                ExprKind::Propagate(_) => true,
                ExprKind::Return(_) => true,
                ExprKind::Block { statements: _, tail: _ } => true,
                ExprKind::If { condition: _, then_branch: _, else_branch: _ } => true,
                ExprKind::Tuple(_) => true,
                ExprKind::List(_) => true,
                ExprKind::RecordLiteral { ty: _, fields: _ } => true,
                ExprKind::MethodCall { receiver: _, method: _, type_arguments: _, arguments: _ } =>
                    true,
                _ => false,
            };
            let pure = match e.kind {
                ExprKind::Literal(_) => true,
                ExprKind::Path(_) => true,
                ExprKind::SelfValue => true,
                ExprKind::ResultValue => true,
                ExprKind::Old(_) => true,
                ExprKind::Field { receiver: _, name: _ } => true,
                ExprKind::Unary { op: _, operand: _ } => true,
                ExprKind::Binary { op: _, left: _, right: _ } => true,
                ExprKind::Match { scrutinee: _, arms: _ } => true,
                _ => false,
            };
            &&& w.st.contract == ContractMode::Ordinary ==> after == w
            &&& pure ==> after == w
            &&& effect && w.st.contract != ContractMode::Ordinary ==> reported(
                w.st.diagnostics,
                after.st.diagnostics,
                "InvalidContractExpression",
                e.span,
            )
        }),
{
    reveal(World::validate_contract_shape);
    reveal(World::report);
}

/// `old` stands only in what is promised of an exit.
pub proof fn law_old_is_for_exits(w: World, e: Expr)
    ensures
        ({
            let after = w.begin_old(e);
            let exit = w.st.contract == (ContractMode::Predicate { old_allowed: true });
            &&& exit ==> after == w
            &&& !exit ==> reported(
                w.st.diagnostics,
                after.st.diagnostics,
                "InvalidOldExpression",
                e.span,
            )
        }),
{
    reveal(World::begin_old);
    reveal(World::report);
}

/// A binding that takes a tuple apart gives each name the type of the element
/// at its position, if there are as many; anything else is reported.
pub proof fn law_tuple_bindings(w: World, locals: Chain<LocalId>, span: Span, ty: TyId)
    ensures
        ({
            let (after, types) = w.element_types(locals, span, ty);
            match w.data(ty) {
                TyData::Tuple(elements) => if elements.seq().len() == locals.seq().len() {
                    after == w && types == elements
                } else {
                    reported(
                        w.st.diagnostics,
                        after.st.diagnostics,
                        "TupleArityMismatch",
                        span,
                    )
                },
                TyData::Error => after == w,
                TyData::Never => after == w,
                _ => reported(
                    w.st.diagnostics,
                    after.st.diagnostics,
                    "TupleBindingRequiresTuple",
                    span,
                ),
            }
        }),
{
    reveal(World::element_types);
    reveal(World::report);
    lemma_len(locals);
    match w.data(ty) {
        TyData::Tuple(elements) => lemma_len(elements),
        _ => {},
    }
}

/// A scoped binding is of a type that can be disposed of, and is disposed of by
/// what the type says; any other is reported.
pub proof fn law_scoped_bindings(
    w: World,
    cx: &Context,
    local: LocalId,
    span: Span,
    ty: TyId,
    region: crate::ids::RegionId,
    dispose: DefId,
    requirement: DefId,
)
    requires
        cx.canonical_concepts.dispose == Some(dispose),
        cx.canonical_concepts.dispose_requirement == Some(requirement),
    ensures
        ({
            let (asked, witness) = w.resource_witness(cx, ty, Some(dispose));
            let after = w.check_scoped_binding(cx, local, span, ty, region);
            match witness {
                None => reported(
                    asked.st.diagnostics,
                    after.st.diagnostics,
                    "ScopedRequiresDispose",
                    span,
                ),
                Some(found) => {
                    &&& after.st.diagnostics == asked.st.diagnostics
                    &&& has_id(after.st.scoped_locals, local.0)
                    &&& after.st.semantics.scoped_disposals.lookup(local.0) == Some(
                        ScopedDisposal { requirement, witness: found },
                    )
                },
            }
        }),
{
    reveal(World::check_scoped_binding);
    reveal(World::set_disposal);
    reveal(World::note_scoped);
    reveal(World::resource_witness);
    reveal(World::note_no_suspend);
    reveal(World::report);
    let asked = w.resource_witness(cx, ty, Some(dispose)).0;
    law_insert_id(asked.st.scoped_locals, local.0, local.0);
}

} // verus!
