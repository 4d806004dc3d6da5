//! The methods and builtins that calls reach: what they take and give, and the
//! steps of checking such a call that look at no further expression.

use vstd::prelude::*;

use crate::calls::{
    find_bound_candidates, find_concrete_concept_candidates, find_inherent_candidates,
    instantiate_concept_signature, is_mutating, make_call, ConceptCandidate, InherentCandidate,
};
#[allow(unused_imports)]
use crate::calls::{
    bound_candidates, builtin_call, concept_candidates, inherent_candidates,
    signature_instantiated, simple_call, takes_mutable,
};
use crate::chain::Chain;
use crate::conformance::{Prerequisites, WitnessSelection, WitnessSource};
#[allow(unused_imports)]
use crate::diagnostics::{adds_to, lemma_adds_nothing, lemma_adds_one, lemma_adds_through};
use crate::diagnostics::Message;
#[allow(unused_imports)]
use crate::growth::{later, lemma_later_itself, lemma_later_through};
use crate::hir::{text_is, Expr, Path};
use crate::ids::{DefId, Span, TyId, TypeRefId};
#[allow(unused_imports)]
use crate::patterns::one;
use crate::semantics::{
    BuiltinValue, CallTarget, CallableSignature, ConstructionCheck, PlaceRoot, ReceiverPassing,
    Signature,
};
use crate::state::{BodyChecker, Context, DynamicCoercionMode};
#[allow(unused_imports)]
use crate::state::World;
#[allow(unused_imports)]
use crate::steps::{bool_ty, int_ty, text_ty, unit_ty};
use crate::substitution::Substitution;
use crate::symbolic::ProofResult;
use crate::ty::{BuiltinType, Mutability, TyData};
#[allow(unused_imports)]
use crate::ty::{builtin_ty, error_ty};
use crate::unify::contains_unbound_param;
#[allow(unused_imports)]
use crate::unify::has_unbound_param;

verus! {

broadcast use {
    lemma_adds_nothing,
    lemma_adds_one,
    lemma_adds_through,
    lemma_later_itself,
    lemma_later_through,
};

/// What a builtin method takes and gives.
pub struct MethodShape {
    pub builtin: BuiltinValue,
    pub passing: ReceiverPassing,
    pub params: Chain<TyId>,
    pub result: TyId,
}

pub open spec fn shape(builtin: BuiltinValue, params: Chain<TyId>, result: TyId) -> MethodShape {
    MethodShape { builtin, passing: ReceiverPassing::Value, params, result }
}

fn make_shape(builtin: BuiltinValue, params: Chain<TyId>, result: TyId) -> (made: MethodShape)
    ensures
        made == shape(builtin, params, result),
{
    MethodShape { builtin, passing: ReceiverPassing::Value, params, result }
}

/// A method of lists.
#[derive(Clone, Copy, Debug, PartialEq, Eq, Structural)]
pub enum ListMethod {
    Add,
    Length,
    Get,
    ToTextMap,
}

pub open spec fn list_method(name: Seq<char>) -> Option<ListMethod> {
    if name == "add"@ {
        Some(ListMethod::Add)
    } else if name == "length"@ {
        Some(ListMethod::Length)
    } else if name == "get"@ {
        Some(ListMethod::Get)
    } else if name == "to_text_map"@ {
        Some(ListMethod::ToTextMap)
    } else {
        None
    }
}

pub(crate) fn find_list_method(name: &String) -> (method: Option<ListMethod>)
    ensures
        method == list_method(name@),
{
    if text_is(name, "add") {
        Some(ListMethod::Add)
    } else if text_is(name, "length") {
        Some(ListMethod::Length)
    } else if text_is(name, "get") {
        Some(ListMethod::Get)
    } else if text_is(name, "to_text_map") {
        Some(ListMethod::ToTextMap)
    } else {
        None
    }
}

/// The accessor of task faults with a name.
pub open spec fn fault_accessor(name: Seq<char>) -> Option<BuiltinValue> {
    if name == "code"@ {
        Some(BuiltinValue::TaskFaultCode)
    } else if name == "message"@ {
        Some(BuiltinValue::TaskFaultMessage)
    } else {
        None
    }
}

pub(crate) fn find_fault_accessor(name: &String) -> (accessor: Option<BuiltinValue>)
    ensures
        accessor == fault_accessor(name@),
{
    if text_is(name, "code") {
        Some(BuiltinValue::TaskFaultCode)
    } else if text_is(name, "message") {
        Some(BuiltinValue::TaskFaultMessage)
    } else {
        None
    }
}

/// A call that is settled but for its arguments.
pub struct PlannedCall {
    pub signature: CallableSignature,
    pub target: CallTarget,
    pub witness: Option<WitnessSelection>,
    pub substitution: Substitution,
}

/// What a method name reaches through interfaces and bounds.
pub enum DotCall {
    /// Nothing: the method may be found elsewhere.
    Pass,
    /// An error, which is reported.
    Failed,
    Found(PlannedCall),
}

/// The list of one element.
pub(crate) fn single<T>(item: T) -> (list: Chain<T>)
    ensures
        list == one(item),
{
    Chain::new().with(item)
}

/// A builtin that takes its arguments as a function does.
pub open spec fn is_function_builtin(builtin: BuiltinValue) -> bool {
    match builtin {
        BuiltinValue::FloatParseStatus => true,
        BuiltinValue::FloatFormat => true,
        BuiltinValue::FloatIsFinite => true,
        BuiltinValue::IntToFloat => true,
        BuiltinValue::FloatToIntStatus => true,
        BuiltinValue::ProcessArgumentCount => true,
        BuiltinValue::ProcessArgumentAt => true,
        BuiltinValue::ProcessEnvironment => true,
        BuiltinValue::DurationMilliseconds => true,
        BuiltinValue::FileOpenRead => true,
        BuiltinValue::FileCreate => true,
        BuiltinValue::FileTryOpenRead => true,
        BuiltinValue::FileTryCreate => true,
        BuiltinValue::IoErrorKind => true,
        BuiltinValue::IoErrorMessage => true,
        BuiltinValue::SocketConnect => true,
        BuiltinValue::SocketTryConnect => true,
        BuiltinValue::LogWrite => true,
        BuiltinValue::StdoutWrite => true,
        _ => false,
    }
}

pub(crate) fn takes_function_arguments(builtin: BuiltinValue) -> (result: bool)
    ensures
        result == is_function_builtin(builtin),
{
    match builtin {
        BuiltinValue::FloatParseStatus
        | BuiltinValue::FloatFormat
        | BuiltinValue::FloatIsFinite
        | BuiltinValue::IntToFloat
        | BuiltinValue::FloatToIntStatus
        | BuiltinValue::ProcessArgumentCount
        | BuiltinValue::ProcessArgumentAt
        | BuiltinValue::ProcessEnvironment
        | BuiltinValue::DurationMilliseconds
        | BuiltinValue::FileOpenRead
        | BuiltinValue::FileCreate
        | BuiltinValue::FileTryOpenRead
        | BuiltinValue::FileTryCreate
        | BuiltinValue::IoErrorKind
        | BuiltinValue::IoErrorMessage
        | BuiltinValue::SocketConnect
        | BuiltinValue::SocketTryConnect
        | BuiltinValue::LogWrite
        | BuiltinValue::StdoutWrite => true,
        _ => false,
    }
}

/// A builtin of an open file or socket, which is its first argument.
pub open spec fn resource_is_file(builtin: BuiltinValue) -> Option<bool> {
    match builtin {
        BuiltinValue::FileReadText => Some(true),
        BuiltinValue::FileWriteText => Some(true),
        BuiltinValue::FileTryReadText => Some(true),
        BuiltinValue::FileTryWriteText => Some(true),
        BuiltinValue::FileClose => Some(true),
        BuiltinValue::SocketReadText => Some(false),
        BuiltinValue::SocketWriteText => Some(false),
        BuiltinValue::SocketTryReadText => Some(false),
        BuiltinValue::SocketTryWriteText => Some(false),
        BuiltinValue::SocketClose => Some(false),
        _ => None,
    }
}

pub(crate) fn find_resource(builtin: BuiltinValue) -> (file: Option<bool>)
    ensures
        file == resource_is_file(builtin),
{
    match builtin {
        BuiltinValue::FileReadText
        | BuiltinValue::FileWriteText
        | BuiltinValue::FileTryReadText
        | BuiltinValue::FileTryWriteText
        | BuiltinValue::FileClose => Some(true),
        BuiltinValue::SocketReadText
        | BuiltinValue::SocketWriteText
        | BuiltinValue::SocketTryReadText
        | BuiltinValue::SocketTryWriteText
        | BuiltinValue::SocketClose => Some(false),
        _ => None,
    }
}

pub open spec fn resource_passing(builtin: BuiltinValue) -> ReceiverPassing {
    if builtin == BuiltinValue::FileClose || builtin == BuiltinValue::SocketClose {
        ReceiverPassing::InOut
    } else {
        ReceiverPassing::Value
    }
}

/// What is said of a builtin that is no function.
pub open spec fn uncallable_text(builtin: BuiltinValue) -> &'static str {
    match builtin {
        BuiltinValue::Unit => "value constructor is not callable",
        BuiltinValue::OptionNone => "value constructor is not callable",
        BuiltinValue::TaskCompleted => "value constructor is not callable",
        BuiltinValue::TaskFaulted => "value constructor is not callable",
        BuiltinValue::TaskCancelled => "value constructor is not callable",
        _ => "List builtin is only available through List construction or methods",
    }
}

pub(crate) fn find_uncallable_text(builtin: BuiltinValue) -> (text: &'static str)
    ensures
        text == uncallable_text(builtin),
{
    match builtin {
        BuiltinValue::Unit
        | BuiltinValue::OptionNone
        | BuiltinValue::TaskCompleted
        | BuiltinValue::TaskFaulted
        | BuiltinValue::TaskCancelled => "value constructor is not callable",
        _ => "List builtin is only available through List construction or methods",
    }
}

impl World {
    #[verifier::opaque]
    pub open spec fn io_error_type(self, cx: &Context, span: Span) -> (World, TyId) {
        self.canonical_std_type(
            cx.canonical_std_items.io_error,
            "required canonical standard-library item `std.io.IoError` is missing",
            span,
        )
    }

    #[verifier::opaque]
    pub open spec fn file_type(self, cx: &Context, span: Span) -> (World, TyId) {
        self.canonical_std_type(
            cx.canonical_std_items.file,
            "required canonical standard-library item `std.file.File` is missing",
            span,
        )
    }

    #[verifier::opaque]
    pub open spec fn socket_type(self, cx: &Context, span: Span) -> (World, TyId) {
        self.canonical_std_type(
            cx.canonical_std_items.socket,
            "required canonical standard-library item `std.net.Socket` is missing",
            span,
        )
    }

    /// The task that opens a resource or fails.
    #[verifier::opaque]
    pub open spec fn try_resource_task(self, cx: &Context, resource: TyId, span: Span) -> (
        World,
        TyId,
    ) {
        let (w, error) = self.io_error_type(cx, span);
        let (w, result) = w.intern(TyData::Result { ok: resource, error });
        w.intern(TyData::Task(result))
    }

    /// The types of the arguments of a builtin function.
    #[verifier::opaque]
    pub open spec fn builtin_params(self, cx: &Context, builtin: BuiltinValue, span: Span) -> (
        World,
        Chain<TyId>,
    ) {
        match builtin {
            BuiltinValue::FloatFormat => (self, one(builtin_ty(BuiltinType::Float))),
            BuiltinValue::FloatIsFinite => (self, one(builtin_ty(BuiltinType::Float))),
            BuiltinValue::FloatToIntStatus => (self, one(builtin_ty(BuiltinType::Float))),
            BuiltinValue::IntToFloat => (self, one(int_ty())),
            BuiltinValue::ProcessArgumentAt => (self, one(int_ty())),
            BuiltinValue::DurationMilliseconds => (self, one(int_ty())),
            BuiltinValue::ProcessArgumentCount => (self, Chain::Empty),
            BuiltinValue::IoErrorKind => {
                let (w, error) = self.io_error_type(cx, span);
                (w, one(error))
            },
            BuiltinValue::IoErrorMessage => {
                let (w, error) = self.io_error_type(cx, span);
                (w, one(error))
            },
            BuiltinValue::SocketConnect => (self, one(text_ty()).pushed(int_ty())),
            BuiltinValue::SocketTryConnect => (self, one(text_ty()).pushed(int_ty())),
            BuiltinValue::LogWrite => {
                let (w, level) = self.canonical_std_type(
                    cx.canonical_std_items.log_level,
                    "required canonical standard-library item `std.log.LogLevel` is missing",
                    span,
                );
                let (w, fields) = w.intern(TyData::TextMap(text_ty()));
                (w, one(level).pushed(text_ty()).pushed(fields))
            },
            _ => (self, one(text_ty())),
        }
    }

    /// The type that a builtin function gives.
    #[verifier::opaque]
    pub open spec fn builtin_result(self, cx: &Context, builtin: BuiltinValue, span: Span) -> (
        World,
        TyId,
    ) {
        match builtin {
            BuiltinValue::FloatParseStatus => self.intern(
                TyData::Tuple(one(builtin_ty(BuiltinType::Float)).pushed(int_ty())),
            ),
            BuiltinValue::FloatFormat => (self, text_ty()),
            BuiltinValue::FloatIsFinite => (self, bool_ty()),
            BuiltinValue::IntToFloat => (self, builtin_ty(BuiltinType::Float)),
            BuiltinValue::FloatToIntStatus => self.intern(
                TyData::Tuple(one(int_ty()).pushed(int_ty())),
            ),
            BuiltinValue::ProcessArgumentCount => (self, int_ty()),
            BuiltinValue::ProcessArgumentAt => (self, text_ty()),
            BuiltinValue::ProcessEnvironment => self.intern(TyData::Option(text_ty())),
            BuiltinValue::DurationMilliseconds => (self, builtin_ty(BuiltinType::Duration)),
            BuiltinValue::FileOpenRead => {
                let (w, file) = self.file_type(cx, span);
                w.intern(TyData::Task(file))
            },
            BuiltinValue::FileCreate => {
                let (w, file) = self.file_type(cx, span);
                w.intern(TyData::Task(file))
            },
            BuiltinValue::FileTryOpenRead => {
                let (w, file) = self.file_type(cx, span);
                w.try_resource_task(cx, file, span)
            },
            BuiltinValue::FileTryCreate => {
                let (w, file) = self.file_type(cx, span);
                w.try_resource_task(cx, file, span)
            },
            BuiltinValue::IoErrorKind => self.canonical_std_type(
                cx.canonical_std_items.io_error_kind,
                "required canonical standard-library item `std.io.IoErrorKind` is missing",
                span,
            ),
            BuiltinValue::IoErrorMessage => (self, text_ty()),
            BuiltinValue::SocketConnect => {
                let (w, socket) = self.socket_type(cx, span);
                w.intern(TyData::Task(socket))
            },
            BuiltinValue::SocketTryConnect => {
                let (w, socket) = self.socket_type(cx, span);
                w.try_resource_task(cx, socket, span)
            },
            _ => (self, unit_ty()),
        }
    }

    /// What a builtin of an open resource takes and gives.
    #[verifier::opaque]
    pub open spec fn resource_shape(self, cx: &Context, builtin: BuiltinValue, span: Span) -> (
        World,
        MethodShape,
    ) {
        let passing = resource_passing(builtin);
        match builtin {
            BuiltinValue::FileReadText => {
                let (w, result) = self.intern(TyData::Task(text_ty()));
                (w, MethodShape { builtin, passing, params: Chain::Empty, result })
            },
            BuiltinValue::SocketReadText => {
                let (w, result) = self.intern(TyData::Task(text_ty()));
                (w, MethodShape { builtin, passing, params: Chain::Empty, result })
            },
            BuiltinValue::FileWriteText => {
                let (w, result) = self.intern(TyData::Task(unit_ty()));
                (w, MethodShape { builtin, passing, params: one(text_ty()), result })
            },
            BuiltinValue::SocketWriteText => {
                let (w, result) = self.intern(TyData::Task(unit_ty()));
                (w, MethodShape { builtin, passing, params: one(text_ty()), result })
            },
            BuiltinValue::FileTryReadText => {
                let (w, result) = self.try_resource_task(cx, text_ty(), span);
                (w, MethodShape { builtin, passing, params: Chain::Empty, result })
            },
            BuiltinValue::SocketTryReadText => {
                let (w, result) = self.try_resource_task(cx, text_ty(), span);
                (w, MethodShape { builtin, passing, params: Chain::Empty, result })
            },
            BuiltinValue::FileTryWriteText => {
                let (w, result) = self.try_resource_task(cx, unit_ty(), span);
                (w, MethodShape { builtin, passing, params: one(text_ty()), result })
            },
            BuiltinValue::SocketTryWriteText => {
                let (w, result) = self.try_resource_task(cx, unit_ty(), span);
                (w, MethodShape { builtin, passing, params: one(text_ty()), result })
            },
            _ => (self, MethodShape { builtin, passing, params: Chain::Empty, result: unit_ty() }),
        }
    }

    /// The method of a text map with a name.
    #[verifier::opaque]
    pub open spec fn text_map_method(self, value: TyId, name: Seq<char>) -> (
        World,
        Option<MethodShape>,
    ) {
        if name == "length"@ {
            (self, Some(shape(BuiltinValue::TextMapLength, Chain::Empty, int_ty())))
        } else if name == "contains"@ {
            (self, Some(shape(BuiltinValue::TextMapContains, one(text_ty()), bool_ty())))
        } else if name == "get"@ {
            let (w, result) = self.intern(TyData::Option(value));
            (w, Some(shape(BuiltinValue::TextMapGet, one(text_ty()), result)))
        } else if name == "entry_at"@ {
            let (w, entry) = self.intern(TyData::Tuple(one(text_ty()).pushed(value)));
            let (w, result) = w.intern(TyData::Option(entry));
            (w, Some(shape(BuiltinValue::TextMapEntryAt, one(int_ty()), result)))
        } else if name == "insert"@ {
            let (w, result) = self.intern(TyData::TextMap(value));
            (
                w,
                Some(shape(BuiltinValue::TextMapInsert, one(text_ty()).pushed(value), result)),
            )
        } else if name == "remove"@ {
            let (w, result) = self.intern(TyData::TextMap(value));
            (w, Some(shape(BuiltinValue::TextMapRemove, one(text_ty()), result)))
        } else {
            (self, None)
        }
    }

    /// The method of a builtin value with a name.
    #[verifier::opaque]
    pub open spec fn value_method(
        self,
        cx: &Context,
        span: Span,
        ty: BuiltinType,
        name: Seq<char>,
    ) -> (
        World,
        Option<MethodShape>,
    ) {
        match ty {
            BuiltinType::Text => if name == "length"@ {
                (self, Some(shape(BuiltinValue::TextLength, Chain::Empty, int_ty())))
            } else if name == "get"@ {
                let (w, result) = self.intern(TyData::Option(text_ty()));
                (w, Some(shape(BuiltinValue::TextGet, one(int_ty()), result)))
            } else if name == "concat"@ {
                (self, Some(shape(BuiltinValue::TextConcat, one(text_ty()), text_ty())))
            } else if name == "contains"@ {
                (self, Some(shape(BuiltinValue::TextContains, one(text_ty()), bool_ty())))
            } else if name == "encode_utf8"@ {
                (
                    self,
                    Some(
                        shape(
                            BuiltinValue::TextEncodeUtf8,
                            Chain::Empty,
                            builtin_ty(BuiltinType::Bytes),
                        ),
                    ),
                )
            } else {
                (self, None)
            },
            BuiltinType::Bytes => if name == "length"@ {
                (self, Some(shape(BuiltinValue::BytesLength, Chain::Empty, int_ty())))
            } else if name == "get"@ {
                let (w, result) = self.intern(TyData::Option(int_ty()));
                (w, Some(shape(BuiltinValue::BytesGet, one(int_ty()), result)))
            } else if name == "add"@ {
                (
                    self,
                    Some(
                        MethodShape {
                            builtin: BuiltinValue::BytesAdd,
                            passing: ReceiverPassing::InOut,
                            params: one(int_ty()),
                            result: unit_ty(),
                        },
                    ),
                )
            } else if name == "append"@ {
                let bytes = builtin_ty(BuiltinType::Bytes);
                (self, Some(shape(BuiltinValue::BytesAppend, one(bytes), bytes)))
            } else if name == "decode_utf8"@ {
                let (w, error) = self.canonical_std_type(
                    cx.canonical_std_items.decode_text_error,
                    "required canonical standard-library item `std.text.DecodeTextError` is missing",
                    span,
                );
                let (w, result) = w.intern(TyData::Result { ok: text_ty(), error });
                (w, Some(shape(BuiltinValue::BytesDecodeUtf8, Chain::Empty, result)))
            } else {
                (self, None)
            },
            BuiltinType::Path => if name == "as_text"@ {
                (self, Some(shape(BuiltinValue::PathAsText, Chain::Empty, text_ty())))
            } else if name == "join"@ {
                let path = builtin_ty(BuiltinType::Path);
                let (w, result) = self.path_result(cx, span);
                (w, Some(shape(BuiltinValue::PathJoin, one(path), result)))
            } else {
                (self, None)
            },
            BuiltinType::Duration => if name == "as_milliseconds"@ {
                (
                    self,
                    Some(shape(BuiltinValue::DurationAsMilliseconds, Chain::Empty, int_ty())),
                )
            } else {
                (self, None)
            },
            _ => (self, None),
        }
    }

    /// The type of a path or the error of making one.
    #[verifier::opaque]
    pub open spec fn path_result(self, cx: &Context, span: Span) -> (World, TyId) {
        let (w, error) = self.canonical_std_type(
            cx.canonical_std_items.path_error,
            "required canonical standard-library item `std.path.PathError` is missing",
            span,
        );
        w.intern(TyData::Result { ok: builtin_ty(BuiltinType::Path), error })
    }

    #[verifier::opaque]
    pub open spec fn reject_type_arguments(
        self,
        e: Expr,
        type_arguments: Chain<TypeRefId>,
        text: &'static str,
    ) -> World {
        if type_arguments is Empty {
            self
        } else {
            self.text_error("TypeMismatch", text, e.span)
        }
    }

    /// An argument with a fixed type is checked.
    #[verifier::opaque]
    pub open spec fn end_fixed_argument(self, cx: &Context, argument: Expr, ty: TyId) -> World {
        let (w, must_scope) = self.has_must_scope_obligation(cx, ty);
        if must_scope {
            w.text_error(
                "MustScopeArgumentNotAllowed",
                "a value containing a MustScope resource cannot be passed as an ordinary argument",
                argument.span,
            )
        } else {
            w
        }
    }

    /// What is expected of an argument whose parameter has the declared type:
    /// nothing while type arguments are open. Interface arguments are lent
    /// where the call borrows.
    #[verifier::opaque]
    pub open spec fn prepare_argument(
        self,
        declared: TyId,
        substitution: Substitution,
        borrowing: bool,
    ) -> (World, Option<TyId>) {
        let (w, ty) = self.substitute(declared, substitution);
        if has_unbound_param(w.types, ty, substitution) {
            (w, None)
        } else if borrowing && w.is_view(ty) {
            (w.with_mode(DynamicCoercionMode::CallBorrow), Some(ty))
        } else {
            (w, Some(ty))
        }
    }

    /// The call of a builtin is settled.
    #[verifier::opaque]
    pub open spec fn settle_builtin(
        self,
        e: Expr,
        arguments: Chain<Expr>,
        builtin: BuiltinValue,
        receiver: Option<ReceiverPassing>,
    ) -> World {
        self.finish_call_arguments(arguments, false).set_call(e.id, builtin_call(builtin, receiver))
    }

    /// `List[T]()` and `TextMap[T]()`.
    #[verifier::opaque]
    pub open spec fn construct_collection(
        self,
        cx: &Context,
        e: Expr,
        is_list: bool,
        type_arguments: Chain<TypeRefId>,
        arguments: Chain<Expr>,
    ) -> (World, TyId) {
        let w = self.check_arity(e.span, Chain::<()>::Empty, arguments);
        let (w, explicit) = w.resolve_written_types(cx, type_arguments);
        let (w, value) = match explicit {
            Chain::Link(link) => if link.rest is Empty {
                (w, link.item)
            } else {
                (w.wrong_collection(e, is_list), error_ty())
            },
            Chain::Empty => (w.wrong_collection(e, is_list), error_ty()),
        };
        let (w, result) = w.intern(
            if is_list {
                TyData::List(value)
            } else {
                TyData::TextMap(value)
            },
        );
        (
            w.settle_builtin(
                e,
                arguments,
                if is_list {
                    BuiltinValue::ListNew
                } else {
                    BuiltinValue::TextMapNew
                },
                None,
            ),
            result,
        )
    }

    #[verifier::opaque]
    pub open spec fn wrong_collection(self, e: Expr, is_list: bool) -> World {
        self.text_error(
            "TypeMismatch",
            if is_list {
                "List construction requires exactly one value type: `List[T]()`"
            } else {
                "TextMap construction requires exactly one value type: `TextMap[T]()`"
            },
            e.span,
        )
    }

    /// A constrained value is made of a checked argument. What is not proved
    /// is checked when the program runs, and may fail there.
    #[verifier::opaque]
    pub open spec fn end_refined(
        self,
        cx: &Context,
        e: Expr,
        definition: DefId,
        argument: Expr,
        base: TyId,
    ) -> (World, TyId) {
        let (w, verdict) = self.refinement_proof(cx, definition, argument);
        let (w, carries_task) = w.has_task_obligation(cx, base);
        let (w, nominal) = w.intern(TyData::Nominal { definition, arguments: Chain::Empty });
        let w = w.set_construction(
            e.id,
            if verdict == ProofResult::Proven {
                ConstructionCheck::Proven
            } else {
                ConstructionCheck::Runtime
            },
        ).set_call(e.id, simple_call(CallTarget::RefinedConstructor(definition)));
        match verdict {
            ProofResult::Proven => (w, nominal),
            ProofResult::Disproven => (
                (if carries_task {
                    w.consume_task_obligation(cx, argument)
                } else {
                    w
                }).error(
                    "ConstraintUnsatisfied",
                    Message::Definition(
                        "value is statically known to violate `",
                        definition,
                        "`",
                        "<constrained type>",
                    ),
                    e.span,
                ),
                error_ty(),
            ),
            ProofResult::Unknown => if carries_task {
                (
                    w.text_error(
                        "TaskFallibleConstructionUnsupported",
                        "a Task-carrying constrained value requires a statically proven predicate because a failed runtime check cannot discard its Task",
                        e.span,
                    ).consume_task_obligation(cx, argument),
                    error_ty(),
                )
            } else {
                w.intern(
                    TyData::Result {
                        ok: nominal,
                        error: builtin_ty(BuiltinType::ConstraintError),
                    },
                )
            },
        }
    }

    /// A value is added to a list.
    #[verifier::opaque]
    pub open spec fn end_add_argument(self, cx: &Context, argument: Expr, element: TyId) -> World {
        let (w, must_scope) = self.has_must_scope_obligation(cx, element);
        let w = if must_scope {
            w.text_error(
                "MustScopeArgumentNotAllowed",
                "a value containing a MustScope resource cannot be stored in a List",
                argument.span,
            )
        } else {
            w
        };
        let (w, task) = w.has_task_obligation(cx, element);
        if task {
            w.consume_task_obligation(cx, argument)
        } else {
            w
        }
    }

    /// The type of an element that is read from a list.
    #[verifier::opaque]
    pub open spec fn end_list_get(
        self,
        cx: &Context,
        receiver: Expr,
        element: TyId,
    ) -> (World, TyId) {
        let (w, task) = self.has_task_obligation(cx, element);
        if task {
            (
                w.text_error(
                    "TaskContainerExtractionUnsupported",
                    "List.get cannot extract a Task-carrying element before container ownership transfer is available",
                    receiver.span,
                ).consume_task_obligation(cx, receiver),
                error_ty(),
            )
        } else {
            w.intern(TyData::Option(element))
        }
    }

    /// The type of a list of pairs as a map.
    #[verifier::opaque]
    pub open spec fn list_to_map(
        self,
        cx: &Context,
        receiver: Expr,
        element: TyId,
    ) -> (World, TyId) {
        match pair_value(self.data(element)) {
            Some(value) => {
                let (w, task) = self.has_task_obligation(cx, value);
                if task {
                    (
                        w.text_error(
                            "TaskContainerExtractionUnsupported",
                            "List[(Text, V)].to_text_map cannot transfer Task-carrying values before container ownership transfer is available",
                            receiver.span,
                        ),
                        error_ty(),
                    )
                } else {
                    let (w, map) = w.intern(TyData::TextMap(value));
                    w.intern(TyData::Result { ok: map, error: text_ty() })
                }
            },
            None => (
                self.text_error(
                    "TypeMismatch",
                    "to_text_map requires a List[(Text, V)] receiver",
                    receiver.span,
                ),
                error_ty(),
            ),
        }
    }

    /// The result of a method of a text map whose values may carry tasks.
    #[verifier::opaque]
    pub open spec fn end_text_map(
        self,
        cx: &Context,
        e: Expr,
        receiver: Expr,
        arguments: Chain<Expr>,
        method: MethodShape,
        carries_task: bool,
    ) -> (World, TyId) {
        if carries_task && method.builtin != BuiltinValue::TextMapLength && method.builtin
            != BuiltinValue::TextMapContains {
            (
                self.text_error(
                    "TaskContainerExtractionUnsupported",
                    "this TextMap operation cannot transfer Task-carrying values before container ownership transfer is available",
                    e.span,
                ).consume_task_obligation(cx, receiver).consume_tasks(cx, arguments),
                error_ty(),
            )
        } else {
            (self, method.result)
        }
    }

    /// An accessor of a task fault.
    #[verifier::opaque]
    pub open spec fn fault_call(
        self,
        e: Expr,
        builtin: BuiltinValue,
        type_arguments: Chain<TypeRefId>,
        arguments: Chain<Expr>,
    ) -> World {
        self.reject_type_arguments(
            e,
            type_arguments,
            "TaskFault accessors do not accept explicit type arguments",
        ).check_arity(e.span, Chain::<()>::Empty, arguments).settle_builtin(
            e,
            arguments,
            builtin,
            Some(ReceiverPassing::Value),
        )
    }

    /// A resource is closed by hand, which is never allowed.
    #[verifier::opaque]
    pub open spec fn reject_close(
        self,
        e: Expr,
        receiver: Expr,
        type_arguments: Chain<TypeRefId>,
        arguments: Chain<Expr>,
    ) -> World {
        let scoped = self.is_scoped_receiver(receiver.id);
        let w = self.reject_type_arguments(
            e,
            type_arguments,
            "resource cleanup does not accept explicit type arguments",
        ).check_arity(e.span, Chain::<()>::Empty, arguments).finish_call_arguments(
            arguments,
            false,
        );
        if scoped {
            w.text_error(
                "ManualDisposeOfScopedValue",
                "a scoped resource is disposed automatically and cannot be closed manually",
                receiver.span,
            )
        } else {
            w.text_error(
                "MustScopeRequiresScoped",
                "methods on a MustScope value require a receiver already bound with `scoped`",
                receiver.span,
            )
        }
    }

    #[verifier::opaque]
    pub open spec fn require_scoped(
        self,
        cx: &Context,
        receiver: Expr,
        receiver_ty: TyId,
    ) -> World {
        let scoped = self.is_scoped_receiver(receiver.id);
        let (w, must_scope) = self.has_must_scope_obligation(cx, receiver_ty);
        if must_scope && !scoped {
            w.text_error(
                "MustScopeRequiresScoped",
                "methods on a MustScope value require a receiver already bound with `scoped`",
                receiver.span,
            )
        } else {
            w
        }
    }

    /// A method that a name reaches on an interface value.
    #[verifier::opaque]
    pub open spec fn view_call(
        self,
        cx: &Context,
        receiver: Expr,
        receiver_ty: TyId,
        mutability: Mutability,
        target: TyId,
        name: Seq<char>,
    ) -> (World, DotCall) {
        match self.data(target) {
            TyData::DynTarget(instance) => match cx.program.requirement_named(
                instance.concept,
                name,
            ) {
                None => (self, DotCall::Pass),
                Some(requirement) => match signature_instantiated(
                    cx,
                    self.types,
                    requirement,
                    receiver_ty,
                    instance,
                ) {
                    (types, None) => (World { types, ..self }, DotCall::Pass),
                    (types, Some(signature)) => {
                        let w = World { types, ..self };
                        let w = if takes_mutable(signature) && mutability != Mutability::Mutable {
                            w.text_error(
                                "DynMutReceiverUnavailable",
                                "a readonly interface argument cannot call a `mut self` method",
                                receiver.span,
                            )
                        } else {
                            w
                        };
                        let fixed_local = match w.place_of(receiver.id) {
                            Some(place) => place.root is Local && place.mutability
                                != Mutability::Mutable,
                            None => false,
                        };
                        let w = if takes_mutable(signature) && fixed_local {
                            w.text_error(
                                "MutReceiverRequiresVar",
                                "a stored interface value must use `var` before calling a `mut self` method",
                                receiver.span,
                            )
                        } else {
                            w
                        };
                        (
                            w,
                            DotCall::Found(
                                PlannedCall {
                                    signature,
                                    target: CallTarget::DynamicConcept { requirement },
                                    witness: None,
                                    substitution: Substitution::empty(),
                                },
                            ),
                        )
                    },
                },
            },
            _ => (self, DotCall::Pass),
        }
    }

    /// A method that a name reaches through a bound of the body.
    #[verifier::opaque]
    pub open spec fn bound_call(self, cx: &Context, e: Expr, receiver_ty: TyId, name: String) -> (
        World,
        DotCall,
    ) {
        match bound_candidates(cx, cx.environment.bounds, receiver_ty, name@) {
            Chain::Empty => (self, DotCall::Pass),
            Chain::Link(link) => if !(link.rest is Empty) {
                (
                    self.error(
                        "AmbiguousConceptMethod",
                        Message::Name("multiple bounded concepts provide `", name, "`"),
                        e.span,
                    ),
                    DotCall::Failed,
                )
            } else {
                match signature_instantiated(
                    cx,
                    self.types,
                    link.item.requirement,
                    receiver_ty,
                    link.item.bound.concept,
                ) {
                    (types, None) => (World { types, ..self }, DotCall::Pass),
                    (types, Some(signature)) => (
                        World { types, ..self },
                        DotCall::Found(
                            PlannedCall {
                                signature,
                                target: CallTarget::StaticConcept {
                                    requirement: link.item.requirement,
                                },
                                witness: Some(
                                    WitnessSelection {
                                        source: WitnessSource::ParamBound(link.item.index),
                                        substitution: Substitution::empty(),
                                        associated_types: link.item.bound.concept.bindings,
                                        prerequisites: Prerequisites::Empty,
                                    },
                                ),
                                substitution: Substitution::empty(),
                            },
                        ),
                    ),
                }
            },
        }
    }

    #[verifier::opaque]
    pub open spec fn plan_concept_call(
        self,
        cx: &Context,
        receiver: Expr,
        receiver_ty: TyId,
        candidate: ConceptCandidate,
    ) -> (World, Option<PlannedCall>) {
        let w = self.reject_explicit_dispose_call(cx, candidate.requirement, receiver.span);
        match signature_instantiated(
            cx,
            w.types,
            candidate.requirement,
            receiver_ty,
            candidate.concept,
        ) {
            (types, None) => (World { types, ..w }, None),
            (types, Some(signature)) => {
                let (w, declared) = World { types, ..w }.witness_declares_task_receiver(
                    cx,
                    candidate.witness,
                );
                let w = w.transfer_task_receiver(
                    cx,
                    receiver,
                    receiver_ty,
                    declared,
                    signature.is_async,
                ).require_mutable(
                    receiver,
                    takes_mutable(signature),
                    "mut self concept method requires a mutable receiver place",
                );
                (
                    w,
                    Some(
                        PlannedCall {
                            signature,
                            target: CallTarget::StaticConcept {
                                requirement: candidate.requirement,
                            },
                            witness: Some(candidate.witness),
                            substitution: Substitution::empty(),
                        },
                    ),
                )
            },
        }
    }

    #[verifier::opaque]
    pub open spec fn plan_inherent_call(
        self,
        cx: &Context,
        receiver: Expr,
        receiver_ty: TyId,
        candidate: InherentCandidate,
    ) -> (World, Option<PlannedCall>) {
        match cx.signature_of(candidate.method) {
            Some(Signature::Callable(signature)) => {
                let (w, declared) = self.has_task_obligation(cx, candidate.target);
                let w = w.transfer_task_receiver(
                    cx,
                    receiver,
                    receiver_ty,
                    declared,
                    signature.is_async,
                ).require_mutable(
                    receiver,
                    takes_mutable(signature),
                    "mut self method requires a mutable receiver place",
                );
                (
                    w,
                    Some(
                        PlannedCall {
                            signature,
                            target: CallTarget::InherentMethod(candidate.method),
                            witness: None,
                            substitution: candidate.substitution,
                        },
                    ),
                )
            },
            _ => (self, None),
        }
    }

    /// A method that a name reaches through implementations: exactly one must
    /// fit.
    #[verifier::opaque]
    pub open spec fn plan_candidate_call(
        self,
        cx: &Context,
        e: Expr,
        receiver: Expr,
        receiver_ty: TyId,
        name: String,
    ) -> (World, Option<PlannedCall>) {
        let inherent = inherent_candidates(
            cx,
            self.types,
            receiver_ty,
            name@,
            cx.program.definitions@.len(),
        );
        let (types, concepts) = concept_candidates(
            cx,
            self.types,
            *cx.visible_concepts,
            receiver_ty,
            name@,
        );
        let w = World { types, ..self };
        match (inherent, concepts) {
            (Chain::Empty, Chain::Empty) => (
                w.error(
                    "UnknownName",
                    Message::NameAndType("no method `", name, "` for ", receiver_ty, ""),
                    e.span,
                ),
                None,
            ),
            (Chain::Empty, Chain::Link(link)) => if link.rest is Empty {
                w.plan_concept_call(cx, receiver, receiver_ty, link.item)
            } else {
                (w.ambiguous_method(e, name), None)
            },
            (Chain::Link(link), Chain::Empty) => if link.rest is Empty {
                w.plan_inherent_call(cx, receiver, receiver_ty, link.item)
            } else {
                (w.ambiguous_method(e, name), None)
            },
            _ => (w.ambiguous_method(e, name), None),
        }
    }

    #[verifier::opaque]
    pub open spec fn ambiguous_method(self, e: Expr, name: String) -> World {
        self.error(
            "AmbiguousConceptMethod",
            Message::Name("multiple methods named `", name, "` apply"),
            e.span,
        )
    }

    /// The method that a name reaches on a receiver; nothing where that is an
    /// error, which is then reported.
    #[verifier::opaque]
    pub open spec fn plan_method(
        self,
        cx: &Context,
        e: Expr,
        receiver: Expr,
        receiver_ty: TyId,
        name: String,
    ) -> (World, Option<PlannedCall>) {
        let w = self.require_scoped(cx, receiver, receiver_ty);
        let (w, dot) = match w.data(receiver_ty) {
            TyData::View { mutability, target } => w.view_call(
                cx,
                receiver,
                receiver_ty,
                mutability,
                target,
                name@,
            ),
            _ => w.bound_call(cx, e, receiver_ty, name),
        };
        match dot {
            DotCall::Found(plan) => (w, Some(plan)),
            DotCall::Failed => (w, None),
            DotCall::Pass => w.plan_candidate_call(cx, e, receiver, receiver_ty, name),
        }
    }
}

/// The type of the values of a list of pairs of a text and a value.
pub open spec fn pair_value(data: TyData) -> Option<TyId> {
    match data {
        TyData::Tuple(elements) => match elements {
            Chain::Link(second) => match second.rest {
                Chain::Link(first) => if first.rest is Empty && first.item == text_ty() {
                    Some(second.item)
                } else {
                    None
                },
                Chain::Empty => None,
            },
            Chain::Empty => None,
        },
        _ => None,
    }
}

impl BodyChecker {
    fn find_pair_value(&self, data: &TyData) -> (value: Option<TyId>)
        ensures
            value == pair_value(*data),
    {
        let text = self.builtin(BuiltinType::Text);
        match data {
            TyData::Tuple(elements) => match elements {
                Chain::Link(second) => match &second.rest {
                    Chain::Link(first) => if first.rest.is_empty() && first.item == text {
                        Some(second.item)
                    } else {
                        None
                    },
                    Chain::Empty => None,
                },
                Chain::Empty => None,
            },
            _ => None,
        }
    }

    fn io_error_type(&mut self, cx: &Context, span: Span) -> (ty: TyId)
        requires
            old(self).wf(),
        ensures
            adds_to(old(self)@.st.diagnostics, final(self)@.st.diagnostics),
            final(self).wf(),
            later(old(self)@.types, final(self)@.types),
            (final(self)@, ty) == old(self)@.io_error_type(cx, span),
    {
        proof {
            reveal(World::io_error_type);
        }
        self.canonical_std_type(
            cx.canonical_std_items.io_error,
            "required canonical standard-library item `std.io.IoError` is missing",
            span,
        )
    }

    pub fn file_type(&mut self, cx: &Context, span: Span) -> (ty: TyId)
        requires
            old(self).wf(),
        ensures
            adds_to(old(self)@.st.diagnostics, final(self)@.st.diagnostics),
            final(self).wf(),
            later(old(self)@.types, final(self)@.types),
            (final(self)@, ty) == old(self)@.file_type(cx, span),
    {
        proof {
            reveal(World::file_type);
        }
        self.canonical_std_type(
            cx.canonical_std_items.file,
            "required canonical standard-library item `std.file.File` is missing",
            span,
        )
    }

    pub fn socket_type(&mut self, cx: &Context, span: Span) -> (ty: TyId)
        requires
            old(self).wf(),
        ensures
            adds_to(old(self)@.st.diagnostics, final(self)@.st.diagnostics),
            final(self).wf(),
            later(old(self)@.types, final(self)@.types),
            (final(self)@, ty) == old(self)@.socket_type(cx, span),
    {
        proof {
            reveal(World::socket_type);
        }
        self.canonical_std_type(
            cx.canonical_std_items.socket,
            "required canonical standard-library item `std.net.Socket` is missing",
            span,
        )
    }

    fn try_resource_task(&mut self, cx: &Context, resource: TyId, span: Span) -> (ty: TyId)
        requires
            old(self).wf(),
        ensures
            adds_to(old(self)@.st.diagnostics, final(self)@.st.diagnostics),
            final(self).wf(),
            later(old(self)@.types, final(self)@.types),
            (final(self)@, ty) == old(self)@.try_resource_task(cx, resource, span),
    {
        proof {
            reveal(World::try_resource_task);
        }
        let error = self.io_error_type(cx, span);
        let result = self.intern(TyData::Result { ok: resource, error });
        self.intern(TyData::Task(result))
    }

    pub fn builtin_params(&mut self, cx: &Context, builtin: BuiltinValue, span: Span) -> (params:
        Chain<TyId>)
        requires
            old(self).wf(),
        ensures
            adds_to(old(self)@.st.diagnostics, final(self)@.st.diagnostics),
            final(self).wf(),
            later(old(self)@.types, final(self)@.types),
            (final(self)@, params) == old(self)@.builtin_params(cx, builtin, span),
    {
        proof {
            reveal(World::builtin_params);
        }
        let text = self.builtin(BuiltinType::Text);
        let number = self.builtin(BuiltinType::Int);
        match builtin {
            BuiltinValue::FloatFormat
            | BuiltinValue::FloatIsFinite
            | BuiltinValue::FloatToIntStatus => single(self.builtin(BuiltinType::Float)),
            BuiltinValue::IntToFloat
            | BuiltinValue::ProcessArgumentAt
            | BuiltinValue::DurationMilliseconds => single(number),
            BuiltinValue::ProcessArgumentCount => Chain::new(),
            BuiltinValue::IoErrorKind | BuiltinValue::IoErrorMessage => {
                let error = self.io_error_type(cx, span);
                single(error)
            },
            BuiltinValue::SocketConnect | BuiltinValue::SocketTryConnect => single(text).with(
                number,
            ),
            BuiltinValue::LogWrite => {
                let level = self.canonical_std_type(
                    cx.canonical_std_items.log_level,
                    "required canonical standard-library item `std.log.LogLevel` is missing",
                    span,
                );
                let fields = self.intern(TyData::TextMap(text));
                single(level).with(text).with(fields)
            },
            _ => single(text),
        }
    }

    pub fn builtin_result(&mut self, cx: &Context, builtin: BuiltinValue, span: Span) -> (ty: TyId)
        requires
            old(self).wf(),
        ensures
            adds_to(old(self)@.st.diagnostics, final(self)@.st.diagnostics),
            final(self).wf(),
            later(old(self)@.types, final(self)@.types),
            (final(self)@, ty) == old(self)@.builtin_result(cx, builtin, span),
    {
        proof {
            reveal(World::builtin_result);
        }
        let text = self.builtin(BuiltinType::Text);
        let number = self.builtin(BuiltinType::Int);
        match builtin {
            BuiltinValue::FloatParseStatus => {
                let value = self.builtin(BuiltinType::Float);
                self.intern(TyData::Tuple(single(value).with(number)))
            },
            BuiltinValue::FloatFormat => text,
            BuiltinValue::FloatIsFinite => self.builtin(BuiltinType::Bool),
            BuiltinValue::IntToFloat => self.builtin(BuiltinType::Float),
            BuiltinValue::FloatToIntStatus => self.intern(
                TyData::Tuple(single(number).with(number)),
            ),
            BuiltinValue::ProcessArgumentCount => number,
            BuiltinValue::ProcessArgumentAt => text,
            BuiltinValue::ProcessEnvironment => self.intern(TyData::Option(text)),
            BuiltinValue::DurationMilliseconds => self.builtin(BuiltinType::Duration),
            BuiltinValue::FileOpenRead | BuiltinValue::FileCreate => {
                let file = self.file_type(cx, span);
                self.intern(TyData::Task(file))
            },
            BuiltinValue::FileTryOpenRead | BuiltinValue::FileTryCreate => {
                let file = self.file_type(cx, span);
                self.try_resource_task(cx, file, span)
            },
            BuiltinValue::IoErrorKind => self.canonical_std_type(
                cx.canonical_std_items.io_error_kind,
                "required canonical standard-library item `std.io.IoErrorKind` is missing",
                span,
            ),
            BuiltinValue::IoErrorMessage => text,
            BuiltinValue::SocketConnect => {
                let socket = self.socket_type(cx, span);
                self.intern(TyData::Task(socket))
            },
            BuiltinValue::SocketTryConnect => {
                let socket = self.socket_type(cx, span);
                self.try_resource_task(cx, socket, span)
            },
            _ => self.builtin(BuiltinType::Unit),
        }
    }

    pub fn resource_shape(&mut self, cx: &Context, builtin: BuiltinValue, span: Span) -> (made:
        MethodShape)
        requires
            old(self).wf(),
        ensures
            adds_to(old(self)@.st.diagnostics, final(self)@.st.diagnostics),
            final(self).wf(),
            later(old(self)@.types, final(self)@.types),
            (final(self)@, made) == old(self)@.resource_shape(cx, builtin, span),
    {
        proof {
            reveal(World::resource_shape);
        }
        let text = self.builtin(BuiltinType::Text);
        let unit = self.builtin(BuiltinType::Unit);
        let passing = match builtin {
            BuiltinValue::FileClose | BuiltinValue::SocketClose => ReceiverPassing::InOut,
            _ => ReceiverPassing::Value,
        };
        match builtin {
            BuiltinValue::FileReadText | BuiltinValue::SocketReadText => {
                let result = self.intern(TyData::Task(text));
                MethodShape { builtin, passing, params: Chain::new(), result }
            },
            BuiltinValue::FileWriteText | BuiltinValue::SocketWriteText => {
                let result = self.intern(TyData::Task(unit));
                MethodShape { builtin, passing, params: single(text), result }
            },
            BuiltinValue::FileTryReadText | BuiltinValue::SocketTryReadText => {
                let result = self.try_resource_task(cx, text, span);
                MethodShape { builtin, passing, params: Chain::new(), result }
            },
            BuiltinValue::FileTryWriteText | BuiltinValue::SocketTryWriteText => {
                let result = self.try_resource_task(cx, unit, span);
                MethodShape { builtin, passing, params: single(text), result }
            },
            _ => MethodShape { builtin, passing, params: Chain::new(), result: unit },
        }
    }

    pub fn text_map_method(&mut self, value: TyId, name: &String) -> (made: Option<MethodShape>)
        requires
            old(self).wf(),
        ensures
            adds_to(old(self)@.st.diagnostics, final(self)@.st.diagnostics),
            final(self).wf(),
            later(old(self)@.types, final(self)@.types),
            (final(self)@, made) == old(self)@.text_map_method(value, name@),
    {
        proof {
            reveal(World::text_map_method);
        }
        let text = self.builtin(BuiltinType::Text);
        let number = self.builtin(BuiltinType::Int);
        if text_is(name, "length") {
            Some(make_shape(BuiltinValue::TextMapLength, Chain::new(), number))
        } else if text_is(name, "contains") {
            let truth = self.builtin(BuiltinType::Bool);
            Some(make_shape(BuiltinValue::TextMapContains, single(text), truth))
        } else if text_is(name, "get") {
            let result = self.intern(TyData::Option(value));
            Some(make_shape(BuiltinValue::TextMapGet, single(text), result))
        } else if text_is(name, "entry_at") {
            let entry = self.intern(TyData::Tuple(single(text).with(value)));
            let result = self.intern(TyData::Option(entry));
            Some(make_shape(BuiltinValue::TextMapEntryAt, single(number), result))
        } else if text_is(name, "insert") {
            let result = self.intern(TyData::TextMap(value));
            Some(make_shape(BuiltinValue::TextMapInsert, single(text).with(value), result))
        } else if text_is(name, "remove") {
            let result = self.intern(TyData::TextMap(value));
            Some(make_shape(BuiltinValue::TextMapRemove, single(text), result))
        } else {
            None
        }
    }

    pub fn value_method(
        &mut self,
        cx: &Context,
        span: Span,
        ty: BuiltinType,
        name: &String,
    ) -> (made:
        Option<MethodShape>)
        requires
            old(self).wf(),
        ensures
            adds_to(old(self)@.st.diagnostics, final(self)@.st.diagnostics),
            final(self).wf(),
            later(old(self)@.types, final(self)@.types),
            (final(self)@, made) == old(self)@.value_method(cx, span, ty, name@),
    {
        proof {
            reveal(World::value_method);
        }
        let text = self.builtin(BuiltinType::Text);
        let number = self.builtin(BuiltinType::Int);
        match ty {
            BuiltinType::Text => if text_is(name, "length") {
                Some(make_shape(BuiltinValue::TextLength, Chain::new(), number))
            } else if text_is(name, "get") {
                let result = self.intern(TyData::Option(text));
                Some(make_shape(BuiltinValue::TextGet, single(number), result))
            } else if text_is(name, "concat") {
                Some(make_shape(BuiltinValue::TextConcat, single(text), text))
            } else if text_is(name, "contains") {
                let truth = self.builtin(BuiltinType::Bool);
                Some(make_shape(BuiltinValue::TextContains, single(text), truth))
            } else if text_is(name, "encode_utf8") {
                let bytes = self.builtin(BuiltinType::Bytes);
                Some(make_shape(BuiltinValue::TextEncodeUtf8, Chain::new(), bytes))
            } else {
                None
            },
            BuiltinType::Bytes => if text_is(name, "length") {
                Some(make_shape(BuiltinValue::BytesLength, Chain::new(), number))
            } else if text_is(name, "get") {
                let result = self.intern(TyData::Option(number));
                Some(make_shape(BuiltinValue::BytesGet, single(number), result))
            } else if text_is(name, "add") {
                let unit = self.builtin(BuiltinType::Unit);
                Some(
                    MethodShape {
                        builtin: BuiltinValue::BytesAdd,
                        passing: ReceiverPassing::InOut,
                        params: single(number),
                        result: unit,
                    },
                )
            } else if text_is(name, "append") {
                let bytes = self.builtin(BuiltinType::Bytes);
                Some(make_shape(BuiltinValue::BytesAppend, single(bytes), bytes))
            } else if text_is(name, "decode_utf8") {
                let error = self.canonical_std_type(
                    cx.canonical_std_items.decode_text_error,
                    "required canonical standard-library item `std.text.DecodeTextError` is missing",
                    span,
                );
                let result = self.intern(TyData::Result { ok: text, error });
                Some(make_shape(BuiltinValue::BytesDecodeUtf8, Chain::new(), result))
            } else {
                None
            },
            BuiltinType::Path => if text_is(name, "as_text") {
                Some(make_shape(BuiltinValue::PathAsText, Chain::new(), text))
            } else if text_is(name, "join") {
                let path = self.builtin(BuiltinType::Path);
                let result = self.path_result(cx, span);
                Some(make_shape(BuiltinValue::PathJoin, single(path), result))
            } else {
                None
            },
            BuiltinType::Duration => if text_is(name, "as_milliseconds") {
                Some(make_shape(BuiltinValue::DurationAsMilliseconds, Chain::new(), number))
            } else {
                None
            },
            _ => None,
        }
    }

    pub fn path_result(&mut self, cx: &Context, span: Span) -> (ty: TyId)
        requires
            old(self).wf(),
        ensures
            adds_to(old(self)@.st.diagnostics, final(self)@.st.diagnostics),
            final(self).wf(),
            later(old(self)@.types, final(self)@.types),
            (final(self)@, ty) == old(self)@.path_result(cx, span),
    {
        proof {
            reveal(World::path_result);
        }
        let error = self.canonical_std_type(
            cx.canonical_std_items.path_error,
            "required canonical standard-library item `std.path.PathError` is missing",
            span,
        );
        let path = self.builtin(BuiltinType::Path);
        self.intern(TyData::Result { ok: path, error })
    }

    pub fn reject_type_arguments(
        &mut self,
        e: &Expr,
        type_arguments: &Chain<TypeRefId>,
        text: &'static str,
    )
        ensures
            adds_to(old(self)@.st.diagnostics, final(self)@.st.diagnostics),
            final(self)@.types == old(self)@.types,
            final(self)@ == old(self)@.reject_type_arguments(*e, *type_arguments, text),
    {
        proof {
            reveal(World::reject_type_arguments);
        }
        if !type_arguments.is_empty() {
            self.text_error("TypeMismatch", text, e.span);
        }
    }

    pub fn end_fixed_argument(&mut self, cx: &Context, argument: &Expr, ty: TyId)
        requires
            old(self).wf(),
        ensures
            adds_to(old(self)@.st.diagnostics, final(self)@.st.diagnostics),
            final(self).wf(),
            later(old(self)@.types, final(self)@.types),
            final(self)@ == old(self)@.end_fixed_argument(cx, *argument, ty),
    {
        proof {
            reveal(World::end_fixed_argument);
        }
        if self.has_must_scope_obligation(cx, ty) {
            self.text_error(
                "MustScopeArgumentNotAllowed",
                "a value containing a MustScope resource cannot be passed as an ordinary argument",
                argument.span,
            );
        }
    }

    pub fn prepare_argument(
        &mut self,
        declared: TyId,
        substitution: &Substitution,
        borrowing: bool,
    ) -> (expected:
        Option<TyId>)
        requires
            old(self).wf(),
        ensures
            adds_to(old(self)@.st.diagnostics, final(self)@.st.diagnostics),
            final(self).wf(),
            later(old(self)@.types, final(self)@.types),
            (final(self)@, expected) == old(self)@.prepare_argument(
                declared,
                *substitution,
                borrowing,
            ),
    {
        proof {
            reveal(World::prepare_argument);
        }
        let ty = self.substitute(declared, substitution);
        if contains_unbound_param(&self.types, ty, substitution) {
            return None;
        }
        if borrowing && self.is_view(ty) {
            self.set_mode(DynamicCoercionMode::CallBorrow);
        }
        Some(ty)
    }

    pub fn settle_builtin(
        &mut self,
        e: &Expr,
        arguments: &Chain<Expr>,
        builtin: BuiltinValue,
        receiver: Option<ReceiverPassing>,
    )
        ensures
            adds_to(old(self)@.st.diagnostics, final(self)@.st.diagnostics),
            final(self)@.types == old(self)@.types,
            final(self)@ == old(self)@.settle_builtin(*e, *arguments, builtin, receiver),
    {
        proof {
            reveal(World::settle_builtin);
        }
        self.finish_call_arguments(arguments, false);
        self.set_call(e.id, make_call(CallTarget::Builtin(builtin), receiver));
    }

    pub fn construct_collection(
        &mut self,
        cx: &Context,
        e: &Expr,
        is_list: bool,
        type_arguments: &Chain<TypeRefId>,
        arguments: &Chain<Expr>,
    ) -> (ty: TyId)
        requires
            old(self).wf(),
        ensures
            adds_to(old(self)@.st.diagnostics, final(self)@.st.diagnostics),
            final(self).wf(),
            later(old(self)@.types, final(self)@.types),
            (final(self)@, ty) == old(self)@.construct_collection(
                cx,
                *e,
                is_list,
                *type_arguments,
                *arguments,
            ),
    {
        proof {
            reveal(World::construct_collection);
        }
        self.check_arity(e.span, &Chain::<()>::new(), arguments);
        let explicit = self.resolve_written_types(cx, type_arguments);
        let value = match &explicit {
            Chain::Link(link) => if link.rest.is_empty() {
                link.item
            } else {
                self.wrong_collection(e, is_list);
                TyId(0)
            },
            Chain::Empty => {
                self.wrong_collection(e, is_list);
                TyId(0)
            },
        };
        let result = self.intern(
            if is_list {
                TyData::List(value)
            } else {
                TyData::TextMap(value)
            },
        );
        self.settle_builtin(
            e,
            arguments,
            if is_list {
                BuiltinValue::ListNew
            } else {
                BuiltinValue::TextMapNew
            },
            None,
        );
        result
    }

    fn wrong_collection(&mut self, e: &Expr, is_list: bool)
        ensures
            adds_to(old(self)@.st.diagnostics, final(self)@.st.diagnostics),
            final(self)@.types == old(self)@.types,
            final(self)@ == old(self)@.wrong_collection(*e, is_list),
    {
        proof {
            reveal(World::wrong_collection);
        }
        self.text_error(
            "TypeMismatch",
            if is_list {
                "List construction requires exactly one value type: `List[T]()`"
            } else {
                "TextMap construction requires exactly one value type: `TextMap[T]()`"
            },
            e.span,
        );
    }

    pub fn end_refined(
        &mut self,
        cx: &Context,
        e: &Expr,
        definition: DefId,
        argument: &Expr,
        base: TyId,
    ) -> (ty: TyId)
        requires
            old(self).wf(),
        ensures
            adds_to(old(self)@.st.diagnostics, final(self)@.st.diagnostics),
            final(self).wf(),
            later(old(self)@.types, final(self)@.types),
            (final(self)@, ty) == old(self)@.end_refined(cx, *e, definition, *argument, base),
    {
        proof {
            reveal(World::end_refined);
        }
        let verdict = self.refinement_proof(cx, definition, argument);
        let carries_task = self.has_task_obligation(cx, base);
        let nominal = self.intern(TyData::Nominal { definition, arguments: Chain::new() });
        self.set_construction(
            e.id,
            if verdict == ProofResult::Proven {
                ConstructionCheck::Proven
            } else {
                ConstructionCheck::Runtime
            },
        );
        self.set_call(e.id, make_call(CallTarget::RefinedConstructor(definition), None));
        match verdict {
            ProofResult::Proven => nominal,
            ProofResult::Disproven => {
                if carries_task {
                    self.consume_task_obligation(cx, argument);
                }
                self.error(
                    "ConstraintUnsatisfied",
                    Message::Definition(
                        "value is statically known to violate `",
                        definition,
                        "`",
                        "<constrained type>",
                    ),
                    e.span,
                );
                TyId(0)
            },
            ProofResult::Unknown => if carries_task {
                self.text_error(
                    "TaskFallibleConstructionUnsupported",
                    "a Task-carrying constrained value requires a statically proven predicate because a failed runtime check cannot discard its Task",
                    e.span,
                );
                self.consume_task_obligation(cx, argument);
                TyId(0)
            } else {
                let error = self.builtin(BuiltinType::ConstraintError);
                self.intern(TyData::Result { ok: nominal, error })
            },
        }
    }

    pub fn end_add_argument(&mut self, cx: &Context, argument: &Expr, element: TyId)
        requires
            old(self).wf(),
        ensures
            adds_to(old(self)@.st.diagnostics, final(self)@.st.diagnostics),
            final(self).wf(),
            later(old(self)@.types, final(self)@.types),
            final(self)@ == old(self)@.end_add_argument(cx, *argument, element),
    {
        proof {
            reveal(World::end_add_argument);
        }
        if self.has_must_scope_obligation(cx, element) {
            self.text_error(
                "MustScopeArgumentNotAllowed",
                "a value containing a MustScope resource cannot be stored in a List",
                argument.span,
            );
        }
        if self.has_task_obligation(cx, element) {
            self.consume_task_obligation(cx, argument);
        }
    }

    pub fn end_list_get(&mut self, cx: &Context, receiver: &Expr, element: TyId) -> (ty: TyId)
        requires
            old(self).wf(),
        ensures
            adds_to(old(self)@.st.diagnostics, final(self)@.st.diagnostics),
            final(self).wf(),
            later(old(self)@.types, final(self)@.types),
            (final(self)@, ty) == old(self)@.end_list_get(cx, *receiver, element),
    {
        proof {
            reveal(World::end_list_get);
        }
        if self.has_task_obligation(cx, element) {
            self.text_error(
                "TaskContainerExtractionUnsupported",
                "List.get cannot extract a Task-carrying element before container ownership transfer is available",
                receiver.span,
            );
            self.consume_task_obligation(cx, receiver);
            TyId(0)
        } else {
            self.intern(TyData::Option(element))
        }
    }

    pub fn list_to_map(&mut self, cx: &Context, receiver: &Expr, element: TyId) -> (ty: TyId)
        requires
            old(self).wf(),
        ensures
            adds_to(old(self)@.st.diagnostics, final(self)@.st.diagnostics),
            final(self).wf(),
            later(old(self)@.types, final(self)@.types),
            (final(self)@, ty) == old(self)@.list_to_map(cx, *receiver, element),
    {
        proof {
            reveal(World::list_to_map);
        }
        let data = self.data(element);
        match self.find_pair_value(&data) {
            Some(value) => if self.has_task_obligation(cx, value) {
                self.text_error(
                    "TaskContainerExtractionUnsupported",
                    "List[(Text, V)].to_text_map cannot transfer Task-carrying values before container ownership transfer is available",
                    receiver.span,
                );
                TyId(0)
            } else {
                let map_ty = self.intern(TyData::TextMap(value));
                let text = self.builtin(BuiltinType::Text);
                self.intern(TyData::Result { ok: map_ty, error: text })
            },
            None => {
                self.text_error(
                    "TypeMismatch",
                    "to_text_map requires a List[(Text, V)] receiver",
                    receiver.span,
                );
                TyId(0)
            },
        }
    }

    pub fn end_text_map(
        &mut self,
        cx: &Context,
        e: &Expr,
        receiver: &Expr,
        arguments: &Chain<Expr>,
        method: &MethodShape,
        carries_task: bool,
    ) -> (ty: TyId)
        requires
            old(self).wf(),
        ensures
            adds_to(old(self)@.st.diagnostics, final(self)@.st.diagnostics),
            final(self).wf(),
            later(old(self)@.types, final(self)@.types),
            (final(self)@, ty) == old(self)@.end_text_map(
                cx,
                *e,
                *receiver,
                *arguments,
                *method,
                carries_task,
            ),
    {
        proof {
            reveal(World::end_text_map);
        }
        if carries_task && method.builtin != BuiltinValue::TextMapLength && method.builtin
            != BuiltinValue::TextMapContains {
            self.text_error(
                "TaskContainerExtractionUnsupported",
                "this TextMap operation cannot transfer Task-carrying values before container ownership transfer is available",
                e.span,
            );
            self.consume_task_obligation(cx, receiver);
            self.consume_tasks(cx, arguments);
            TyId(0)
        } else {
            method.result
        }
    }

    pub fn fault_call(
        &mut self,
        e: &Expr,
        builtin: BuiltinValue,
        type_arguments: &Chain<TypeRefId>,
        arguments: &Chain<Expr>,
    )
        ensures
            adds_to(old(self)@.st.diagnostics, final(self)@.st.diagnostics),
            final(self)@.types == old(self)@.types,
            final(self)@ == old(self)@.fault_call(*e, builtin, *type_arguments, *arguments),
    {
        proof {
            reveal(World::fault_call);
        }
        self.reject_type_arguments(
            e,
            type_arguments,
            "TaskFault accessors do not accept explicit type arguments",
        );
        self.check_arity(e.span, &Chain::<()>::new(), arguments);
        self.settle_builtin(e, arguments, builtin, Some(ReceiverPassing::Value));
    }

    pub fn reject_close(
        &mut self,
        e: &Expr,
        receiver: &Expr,
        type_arguments: &Chain<TypeRefId>,
        arguments: &Chain<Expr>,
    )
        ensures
            adds_to(old(self)@.st.diagnostics, final(self)@.st.diagnostics),
            final(self)@.types == old(self)@.types,
            final(self)@ == old(self)@.reject_close(*e, *receiver, *type_arguments, *arguments),
    {
        proof {
            reveal(World::reject_close);
        }
        let scoped = self.is_scoped_receiver(receiver.id);
        self.reject_type_arguments(
            e,
            type_arguments,
            "resource cleanup does not accept explicit type arguments",
        );
        self.check_arity(e.span, &Chain::<()>::new(), arguments);
        self.finish_call_arguments(arguments, false);
        if scoped {
            self.text_error(
                "ManualDisposeOfScopedValue",
                "a scoped resource is disposed automatically and cannot be closed manually",
                receiver.span,
            );
        } else {
            self.text_error(
                "MustScopeRequiresScoped",
                "methods on a MustScope value require a receiver already bound with `scoped`",
                receiver.span,
            );
        }
    }

    fn require_scoped(&mut self, cx: &Context, receiver: &Expr, receiver_ty: TyId)
        requires
            old(self).wf(),
        ensures
            adds_to(old(self)@.st.diagnostics, final(self)@.st.diagnostics),
            final(self).wf(),
            later(old(self)@.types, final(self)@.types),
            final(self)@ == old(self)@.require_scoped(cx, *receiver, receiver_ty),
    {
        proof {
            reveal(World::require_scoped);
        }
        let scoped = self.is_scoped_receiver(receiver.id);
        if self.has_must_scope_obligation(cx, receiver_ty) && !scoped {
            self.text_error(
                "MustScopeRequiresScoped",
                "methods on a MustScope value require a receiver already bound with `scoped`",
                receiver.span,
            );
        }
    }

    fn view_call(
        &mut self,
        cx: &Context,
        receiver: &Expr,
        receiver_ty: TyId,
        mutability: Mutability,
        target: TyId,
        name: &String,
    ) -> (call: DotCall)
        requires
            old(self).wf(),
        ensures
            adds_to(old(self)@.st.diagnostics, final(self)@.st.diagnostics),
            final(self).wf(),
            later(old(self)@.types, final(self)@.types),
            (final(self)@, call) == old(self)@.view_call(
                cx,
                *receiver,
                receiver_ty,
                mutability,
                target,
                name@,
            ),
    {
        proof {
            reveal(World::view_call);
        }
        match self.data(target) {
            TyData::DynTarget(instance) => match cx.program.concept_method(
                instance.concept,
                name,
            ) {
                None => DotCall::Pass,
                Some(requirement) => match instantiate_concept_signature(
                    cx,
                    &mut self.types,
                    requirement,
                    receiver_ty,
                    &instance,
                ) {
                    None => DotCall::Pass,
                    Some(signature) => {
                        let mutating = is_mutating(&signature);
                        if mutating && mutability != Mutability::Mutable {
                            self.text_error(
                                "DynMutReceiverUnavailable",
                                "a readonly interface argument cannot call a `mut self` method",
                                receiver.span,
                            );
                        }
                        let fixed_local = match self.place(receiver.id) {
                            Some(place) => match place.root {
                                PlaceRoot::Local(_) => place.mutability != Mutability::Mutable,
                                _ => false,
                            },
                            None => false,
                        };
                        if mutating && fixed_local {
                            self.text_error(
                                "MutReceiverRequiresVar",
                                "a stored interface value must use `var` before calling a `mut self` method",
                                receiver.span,
                            );
                        }
                        DotCall::Found(
                            PlannedCall {
                                signature,
                                target: CallTarget::DynamicConcept { requirement },
                                witness: None,
                                substitution: Substitution::default(),
                            },
                        )
                    },
                },
            },
            _ => DotCall::Pass,
        }
    }

    fn bound_call(&mut self, cx: &Context, e: &Expr, receiver_ty: TyId, name: &String) -> (call:
        DotCall)
        requires
            old(self).wf(),
        ensures
            adds_to(old(self)@.st.diagnostics, final(self)@.st.diagnostics),
            final(self).wf(),
            later(old(self)@.types, final(self)@.types),
            (final(self)@, call) == old(self)@.bound_call(cx, *e, receiver_ty, *name),
    {
        proof {
            reveal(World::bound_call);
        }
        let candidates = find_bound_candidates(cx, &cx.environment.bounds, receiver_ty, name);
        match &candidates {
            Chain::Empty => DotCall::Pass,
            Chain::Link(link) => {
                if !link.rest.is_empty() {
                    self.error(
                        "AmbiguousConceptMethod",
                        Message::Name("multiple bounded concepts provide `", name.clone(), "`"),
                        e.span,
                    );
                    return DotCall::Failed;
                }
                match instantiate_concept_signature(
                    cx,
                    &mut self.types,
                    link.item.requirement,
                    receiver_ty,
                    &link.item.bound.concept,
                ) {
                    None => DotCall::Pass,
                    Some(signature) => DotCall::Found(
                        PlannedCall {
                            signature,
                            target: CallTarget::StaticConcept {
                                requirement: link.item.requirement,
                            },
                            witness: Some(
                                WitnessSelection {
                                    source: WitnessSource::ParamBound(link.item.index),
                                    substitution: Substitution::default(),
                                    associated_types: link.item.bound.concept.bindings.clone(),
                                    prerequisites: Prerequisites::Empty,
                                },
                            ),
                            substitution: Substitution::default(),
                        },
                    ),
                }
            },
        }
    }

    fn plan_concept_call(
        &mut self,
        cx: &Context,
        receiver: &Expr,
        receiver_ty: TyId,
        candidate: &ConceptCandidate,
    ) -> (plan: Option<PlannedCall>)
        requires
            old(self).wf(),
        ensures
            adds_to(old(self)@.st.diagnostics, final(self)@.st.diagnostics),
            final(self).wf(),
            later(old(self)@.types, final(self)@.types),
            (final(self)@, plan) == old(self)@.plan_concept_call(
                cx,
                *receiver,
                receiver_ty,
                *candidate,
            ),
    {
        proof {
            reveal(World::plan_concept_call);
        }
        self.reject_explicit_dispose_call(cx, candidate.requirement, receiver.span);
        match instantiate_concept_signature(
            cx,
            &mut self.types,
            candidate.requirement,
            receiver_ty,
            &candidate.concept,
        ) {
            None => None,
            Some(signature) => {
                let declared = self.witness_declares_task_receiver(cx, &candidate.witness);
                self.transfer_task_receiver(
                    cx,
                    receiver,
                    receiver_ty,
                    declared,
                    signature.is_async,
                );
                self.require_mutable(
                    receiver,
                    is_mutating(&signature),
                    "mut self concept method requires a mutable receiver place",
                );
                Some(
                    PlannedCall {
                        signature,
                        target: CallTarget::StaticConcept { requirement: candidate.requirement },
                        witness: Some(candidate.witness.clone()),
                        substitution: Substitution::default(),
                    },
                )
            },
        }
    }

    fn plan_inherent_call(
        &mut self,
        cx: &Context,
        receiver: &Expr,
        receiver_ty: TyId,
        candidate: &InherentCandidate,
    ) -> (plan: Option<PlannedCall>)
        requires
            old(self).wf(),
        ensures
            adds_to(old(self)@.st.diagnostics, final(self)@.st.diagnostics),
            final(self).wf(),
            later(old(self)@.types, final(self)@.types),
            (final(self)@, plan) == old(self)@.plan_inherent_call(
                cx,
                *receiver,
                receiver_ty,
                *candidate,
            ),
    {
        proof {
            reveal(World::plan_inherent_call);
        }
        match cx.signature(candidate.method) {
            Some(Signature::Callable(signature)) => {
                let declared = self.has_task_obligation(cx, candidate.target);
                self.transfer_task_receiver(
                    cx,
                    receiver,
                    receiver_ty,
                    declared,
                    signature.is_async,
                );
                self.require_mutable(
                    receiver,
                    is_mutating(signature),
                    "mut self method requires a mutable receiver place",
                );
                Some(
                    PlannedCall {
                        signature: signature.clone(),
                        target: CallTarget::InherentMethod(candidate.method),
                        witness: None,
                        substitution: candidate.substitution.clone(),
                    },
                )
            },
            _ => None,
        }
    }

    fn plan_candidate_call(
        &mut self,
        cx: &Context,
        e: &Expr,
        receiver: &Expr,
        receiver_ty: TyId,
        name: &String,
    ) -> (plan: Option<PlannedCall>)
        requires
            old(self).wf(),
        ensures
            adds_to(old(self)@.st.diagnostics, final(self)@.st.diagnostics),
            final(self).wf(),
            later(old(self)@.types, final(self)@.types),
            (final(self)@, plan) == old(self)@.plan_candidate_call(
                cx,
                *e,
                *receiver,
                receiver_ty,
                *name,
            ),
    {
        proof {
            reveal(World::plan_candidate_call);
        }
        let inherent = find_inherent_candidates(cx, &self.types, receiver_ty, name);
        let concepts = find_concrete_concept_candidates(
            cx,
            &mut self.types,
            cx.visible_concepts,
            receiver_ty,
            name,
        );
        match (&inherent, &concepts) {
            (Chain::Empty, Chain::Empty) => {
                self.error(
                    "UnknownName",
                    Message::NameAndType("no method `", name.clone(), "` for ", receiver_ty, ""),
                    e.span,
                );
                None
            },
            (Chain::Empty, Chain::Link(link)) => if link.rest.is_empty() {
                self.plan_concept_call(cx, receiver, receiver_ty, &link.item)
            } else {
                self.ambiguous_method(e, name);
                None
            },
            (Chain::Link(link), Chain::Empty) => if link.rest.is_empty() {
                self.plan_inherent_call(cx, receiver, receiver_ty, &link.item)
            } else {
                self.ambiguous_method(e, name);
                None
            },
            _ => {
                self.ambiguous_method(e, name);
                None
            },
        }
    }

    fn ambiguous_method(&mut self, e: &Expr, name: &String)
        ensures
            adds_to(old(self)@.st.diagnostics, final(self)@.st.diagnostics),
            final(self)@.types == old(self)@.types,
            final(self)@ == old(self)@.ambiguous_method(*e, *name),
    {
        proof {
            reveal(World::ambiguous_method);
        }
        self.error(
            "AmbiguousConceptMethod",
            Message::Name("multiple methods named `", name.clone(), "` apply"),
            e.span,
        );
    }

    pub fn plan_method(
        &mut self,
        cx: &Context,
        e: &Expr,
        receiver: &Expr,
        receiver_ty: TyId,
        name: &String,
    ) -> (plan: Option<PlannedCall>)
        requires
            old(self).wf(),
        ensures
            adds_to(old(self)@.st.diagnostics, final(self)@.st.diagnostics),
            final(self).wf(),
            later(old(self)@.types, final(self)@.types),
            (final(self)@, plan) == old(self)@.plan_method(
                cx,
                *e,
                *receiver,
                receiver_ty,
                *name,
            ),
    {
        proof {
            reveal(World::plan_method);
        }
        self.require_scoped(cx, receiver, receiver_ty);
        let dot = match self.data(receiver_ty) {
            TyData::View { mutability, target } => self.view_call(
                cx,
                receiver,
                receiver_ty,
                mutability,
                target,
                name,
            ),
            _ => self.bound_call(cx, e, receiver_ty, name),
        };
        match dot {
            DotCall::Found(plan) => Some(plan),
            DotCall::Failed => None,
            DotCall::Pass => self.plan_candidate_call(cx, e, receiver, receiver_ty, name),
        }
    }
}

} // verus!
