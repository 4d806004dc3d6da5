//! What a call reaches, and what is settled about it before and after its
//! arguments are checked.

use vstd::prelude::*;

use crate::chain::Chain;
use crate::conformance::{Goal, WitnessSelection, WitnessSource};
#[allow(unused_imports)]
use crate::conformance::indexed_header;
#[allow(unused_imports)]
use crate::diagnostics::{adds_to, lemma_adds_nothing, lemma_adds_one, lemma_adds_through};
use crate::diagnostics::Message;
#[allow(unused_imports)]
use crate::growth::{later, lemma_later_itself, lemma_later_through};
use crate::hir::{CompilerStdPrimitive, Definition, DefinitionKind, Expr, ReceiverKind, Visibility};
use crate::ids::{DefId, ExprId, GenericParamId, ParamId, Span, TyId};
use crate::obligations::solve;
#[allow(unused_imports)]
use crate::obligations::solved;
use crate::semantics::{
    Bound, BuiltinValue, CallResolution, CallTarget, CallableSignature, Place, PlaceRoot,
    ReceiverPassing, Signature, ViewSource,
};
use crate::state::{BodyChecker, Context, DynamicCoercionMode, InvariantMutation};
#[allow(unused_imports)]
use crate::state::{CheckState, World};
use crate::substitution::Substitution;
use crate::table::contains_id;
#[allow(unused_imports)]
use crate::table::has_id;
use crate::ty::{AssociatedTypeBinding, ConceptInstance, Mutability, TyData, TyInterner};
#[allow(unused_imports)]
use crate::ty::types_wf;
use crate::unify::{instantiate_concept_type, longer, pair_params, unify_type};
#[allow(unused_imports)]
use crate::unify::{instantiated, paired, unified};

verus! {

broadcast use {
    lemma_adds_nothing,
    lemma_adds_one,
    lemma_adds_through,
    lemma_later_itself,
    lemma_later_through,
};

/// The builtin that a primitive of the standard library is.
pub open spec fn builtin_of(primitive: CompilerStdPrimitive) -> BuiltinValue {
    match primitive {
        CompilerStdPrimitive::FloatFromInt => BuiltinValue::IntToFloat,
        CompilerStdPrimitive::FloatFormat => BuiltinValue::FloatFormat,
        CompilerStdPrimitive::FloatIsFinite => BuiltinValue::FloatIsFinite,
        CompilerStdPrimitive::FloatParseStatus => BuiltinValue::FloatParseStatus,
        CompilerStdPrimitive::FloatToInt => BuiltinValue::FloatToIntStatus,
        CompilerStdPrimitive::DurationMilliseconds => BuiltinValue::DurationMilliseconds,
        CompilerStdPrimitive::FileOpenRead => BuiltinValue::FileOpenRead,
        CompilerStdPrimitive::FileCreate => BuiltinValue::FileCreate,
        CompilerStdPrimitive::FileTryOpenRead => BuiltinValue::FileTryOpenRead,
        CompilerStdPrimitive::FileTryCreate => BuiltinValue::FileTryCreate,
        CompilerStdPrimitive::FileReadText => BuiltinValue::FileReadText,
        CompilerStdPrimitive::FileWriteText => BuiltinValue::FileWriteText,
        CompilerStdPrimitive::FileTryReadText => BuiltinValue::FileTryReadText,
        CompilerStdPrimitive::FileTryWriteText => BuiltinValue::FileTryWriteText,
        CompilerStdPrimitive::FileClose => BuiltinValue::FileClose,
        CompilerStdPrimitive::IoErrorKind => BuiltinValue::IoErrorKind,
        CompilerStdPrimitive::IoErrorMessage => BuiltinValue::IoErrorMessage,
        CompilerStdPrimitive::IoWriteStdout => BuiltinValue::StdoutWrite,
        CompilerStdPrimitive::LogWrite => BuiltinValue::LogWrite,
        CompilerStdPrimitive::ProcessArgumentCount => BuiltinValue::ProcessArgumentCount,
        CompilerStdPrimitive::ProcessArgumentAt => BuiltinValue::ProcessArgumentAt,
        CompilerStdPrimitive::ProcessEnvironment => BuiltinValue::ProcessEnvironment,
        CompilerStdPrimitive::SocketConnect => BuiltinValue::SocketConnect,
        CompilerStdPrimitive::SocketTryConnect => BuiltinValue::SocketTryConnect,
        CompilerStdPrimitive::SocketReadText => BuiltinValue::SocketReadText,
        CompilerStdPrimitive::SocketWriteText => BuiltinValue::SocketWriteText,
        CompilerStdPrimitive::SocketTryReadText => BuiltinValue::SocketTryReadText,
        CompilerStdPrimitive::SocketTryWriteText => BuiltinValue::SocketTryWriteText,
        CompilerStdPrimitive::SocketClose => BuiltinValue::SocketClose,
    }
}

pub(crate) fn primitive_builtin(primitive: CompilerStdPrimitive) -> (builtin: BuiltinValue)
    ensures
        builtin == builtin_of(primitive),
{
    match primitive {
        CompilerStdPrimitive::FloatFromInt => BuiltinValue::IntToFloat,
        CompilerStdPrimitive::FloatFormat => BuiltinValue::FloatFormat,
        CompilerStdPrimitive::FloatIsFinite => BuiltinValue::FloatIsFinite,
        CompilerStdPrimitive::FloatParseStatus => BuiltinValue::FloatParseStatus,
        CompilerStdPrimitive::FloatToInt => BuiltinValue::FloatToIntStatus,
        CompilerStdPrimitive::DurationMilliseconds => BuiltinValue::DurationMilliseconds,
        CompilerStdPrimitive::FileOpenRead => BuiltinValue::FileOpenRead,
        CompilerStdPrimitive::FileCreate => BuiltinValue::FileCreate,
        CompilerStdPrimitive::FileTryOpenRead => BuiltinValue::FileTryOpenRead,
        CompilerStdPrimitive::FileTryCreate => BuiltinValue::FileTryCreate,
        CompilerStdPrimitive::FileReadText => BuiltinValue::FileReadText,
        CompilerStdPrimitive::FileWriteText => BuiltinValue::FileWriteText,
        CompilerStdPrimitive::FileTryReadText => BuiltinValue::FileTryReadText,
        CompilerStdPrimitive::FileTryWriteText => BuiltinValue::FileTryWriteText,
        CompilerStdPrimitive::FileClose => BuiltinValue::FileClose,
        CompilerStdPrimitive::IoErrorKind => BuiltinValue::IoErrorKind,
        CompilerStdPrimitive::IoErrorMessage => BuiltinValue::IoErrorMessage,
        CompilerStdPrimitive::IoWriteStdout => BuiltinValue::StdoutWrite,
        CompilerStdPrimitive::LogWrite => BuiltinValue::LogWrite,
        CompilerStdPrimitive::ProcessArgumentCount => BuiltinValue::ProcessArgumentCount,
        CompilerStdPrimitive::ProcessArgumentAt => BuiltinValue::ProcessArgumentAt,
        CompilerStdPrimitive::ProcessEnvironment => BuiltinValue::ProcessEnvironment,
        CompilerStdPrimitive::SocketConnect => BuiltinValue::SocketConnect,
        CompilerStdPrimitive::SocketTryConnect => BuiltinValue::SocketTryConnect,
        CompilerStdPrimitive::SocketReadText => BuiltinValue::SocketReadText,
        CompilerStdPrimitive::SocketWriteText => BuiltinValue::SocketWriteText,
        CompilerStdPrimitive::SocketTryReadText => BuiltinValue::SocketTryReadText,
        CompilerStdPrimitive::SocketTryWriteText => BuiltinValue::SocketTryWriteText,
        CompilerStdPrimitive::SocketClose => BuiltinValue::SocketClose,
    }
}

/// A call of a builtin.
pub open spec fn builtin_call(
    builtin: BuiltinValue,
    receiver: Option<ReceiverPassing>,
) -> CallResolution {
    CallResolution {
        target: CallTarget::Builtin(builtin),
        substitution: Substitution::empty(),
        dispatch_witness: None,
        witnesses: Chain::Empty,
        receiver,
    }
}

/// A call without receiver, evidence or type arguments.
pub open spec fn simple_call(target: CallTarget) -> CallResolution {
    CallResolution {
        target,
        substitution: Substitution::empty(),
        dispatch_witness: None,
        witnesses: Chain::Empty,
        receiver: None,
    }
}

pub(crate) fn make_call(target: CallTarget, receiver: Option<ReceiverPassing>) -> (call:
    CallResolution)
    ensures
        call == (CallResolution { receiver, ..simple_call(target) }),
{
    CallResolution {
        target,
        substitution: Substitution::default(),
        dispatch_witness: None,
        witnesses: Chain::new(),
        receiver,
    }
}

pub open spec fn takes_mutable(signature: CallableSignature) -> bool {
    signature.receiver == Some(ReceiverKind::Mutable)
}

pub(crate) fn is_mutating(signature: &CallableSignature) -> (mutating: bool)
    ensures
        mutating == takes_mutable(*signature),
{
    match signature.receiver {
        Some(ReceiverKind::Mutable) => true,
        _ => false,
    }
}

/// How the receiver of a method is passed.
pub open spec fn passing_of(signature: CallableSignature) -> ReceiverPassing {
    if takes_mutable(signature) {
        ReceiverPassing::InOut
    } else {
        ReceiverPassing::Value
    }
}

pub(crate) fn receiver_passing(signature: &CallableSignature) -> (passing: ReceiverPassing)
    ensures
        passing == passing_of(*signature),
{
    if is_mutating(signature) {
        ReceiverPassing::InOut
    } else {
        ReceiverPassing::Value
    }
}

// Signatures of concepts for a concrete type.

pub open spec fn params_instantiated(
    types: Seq<TyData>,
    params: Chain<(ParamId, TyId)>,
    self_ty: TyId,
    concept: ConceptInstance,
) -> (Seq<TyData>, Chain<(ParamId, TyId)>)
    decreases params,
{
    match params {
        Chain::Empty => (types, Chain::Empty),
        Chain::Link(link) => {
            let (types, rest) = params_instantiated(types, link.rest, self_ty, concept);
            let (types, ty) = instantiated(types, link.item.1, self_ty, concept, false);
            (types, rest.pushed((link.item.0, ty)))
        },
    }
}

pub open spec fn bindings_instantiated(
    types: Seq<TyData>,
    bindings: Chain<AssociatedTypeBinding>,
    self_ty: TyId,
    concept: ConceptInstance,
) -> (Seq<TyData>, Chain<AssociatedTypeBinding>)
    decreases bindings,
{
    match bindings {
        Chain::Empty => (types, Chain::Empty),
        Chain::Link(link) => {
            let (types, rest) = bindings_instantiated(types, link.rest, self_ty, concept);
            let (types, ty) = instantiated(types, link.item.ty, self_ty, concept, false);
            (types, rest.pushed(AssociatedTypeBinding { ty, ..link.item }))
        },
    }
}

pub open spec fn bounds_instantiated(
    types: Seq<TyData>,
    bounds: Chain<Bound>,
    self_ty: TyId,
    concept: ConceptInstance,
) -> (Seq<TyData>, Chain<Bound>)
    decreases bounds,
{
    match bounds {
        Chain::Empty => (types, Chain::Empty),
        Chain::Link(link) => {
            let (types, rest) = bounds_instantiated(types, link.rest, self_ty, concept);
            let (types, bound_self) = instantiated(
                types,
                link.item.self_ty,
                self_ty,
                concept,
                false,
            );
            let (types, bindings) = bindings_instantiated(
                types,
                link.item.concept.bindings,
                self_ty,
                concept,
            );
            (
                types,
                rest.pushed(
                    Goal {
                        self_ty: bound_self,
                        concept: ConceptInstance {
                            concept: link.item.concept.concept,
                            bindings,
                        },
                    },
                ),
            )
        },
    }
}

/// The signature of a requirement for a concrete type.
pub open spec fn signature_instantiated(
    cx: &Context,
    types: Seq<TyData>,
    requirement: DefId,
    self_ty: TyId,
    concept: ConceptInstance,
) -> (Seq<TyData>, Option<CallableSignature>) {
    match cx.signature_of(requirement) {
        Some(Signature::Callable(signature)) => {
            let (types, params) = params_instantiated(types, signature.params, self_ty, concept);
            let (types, return_ty) = instantiated(
                types,
                signature.return_ty,
                self_ty,
                concept,
                false,
            );
            let (types, bounds) = bounds_instantiated(types, signature.bounds, self_ty, concept);
            let (types, call_bounds) = bounds_instantiated(
                types,
                signature.call_bounds,
                self_ty,
                concept,
            );
            (
                types,
                Some(CallableSignature { params, return_ty, bounds, call_bounds, ..signature }),
            )
        },
        _ => (types, None),
    }
}

fn instantiate_params(
    types: &mut TyInterner,
    params: &Chain<(ParamId, TyId)>,
    self_ty: TyId,
    concept: &ConceptInstance,
) -> (result: Chain<(ParamId, TyId)>)
    requires
        types_wf(old(types)@),
    ensures
        types_wf(final(types)@),
        later(old(types)@, final(types)@),
        (final(types)@, result) == params_instantiated(old(types)@, *params, self_ty, *concept),
    decreases params,
{
    match params {
        Chain::Empty => Chain::new(),
        Chain::Link(link) => {
            let rest = instantiate_params(types, &link.rest, self_ty, concept);
            let ty = instantiate_concept_type(types, link.item.1, self_ty, concept, false);
            rest.with((link.item.0, ty))
        },
    }
}

fn instantiate_binding_types(
    types: &mut TyInterner,
    bindings: &Chain<AssociatedTypeBinding>,
    self_ty: TyId,
    concept: &ConceptInstance,
) -> (result: Chain<AssociatedTypeBinding>)
    requires
        types_wf(old(types)@),
    ensures
        types_wf(final(types)@),
        later(old(types)@, final(types)@),
        (final(types)@, result) == bindings_instantiated(
            old(types)@,
            *bindings,
            self_ty,
            *concept,
        ),
    decreases bindings,
{
    match bindings {
        Chain::Empty => Chain::new(),
        Chain::Link(link) => {
            let rest = instantiate_binding_types(types, &link.rest, self_ty, concept);
            let ty = instantiate_concept_type(types, link.item.ty, self_ty, concept, false);
            rest.with(AssociatedTypeBinding { associated_type: link.item.associated_type, ty })
        },
    }
}

fn instantiate_concept_bounds(
    types: &mut TyInterner,
    bounds: &Chain<Bound>,
    self_ty: TyId,
    concept: &ConceptInstance,
) -> (result: Chain<Bound>)
    requires
        types_wf(old(types)@),
    ensures
        types_wf(final(types)@),
        later(old(types)@, final(types)@),
        (final(types)@, result) == bounds_instantiated(old(types)@, *bounds, self_ty, *concept),
    decreases bounds,
{
    match bounds {
        Chain::Empty => Chain::new(),
        Chain::Link(link) => {
            let rest = instantiate_concept_bounds(types, &link.rest, self_ty, concept);
            let bound_self = instantiate_concept_type(
                types,
                link.item.self_ty,
                self_ty,
                concept,
                false,
            );
            let bindings = instantiate_binding_types(
                types,
                &link.item.concept.bindings,
                self_ty,
                concept,
            );
            rest.with(
                Goal {
                    self_ty: bound_self,
                    concept: ConceptInstance { concept: link.item.concept.concept, bindings },
                },
            )
        },
    }
}

pub(crate) fn instantiate_concept_signature(
    cx: &Context,
    types: &mut TyInterner,
    requirement: DefId,
    self_ty: TyId,
    concept: &ConceptInstance,
) -> (result: Option<CallableSignature>)
    requires
        types_wf(old(types)@),
    ensures
        types_wf(final(types)@),
        later(old(types)@, final(types)@),
        (final(types)@, result) == signature_instantiated(
            cx,
            old(types)@,
            requirement,
            self_ty,
            *concept,
        ),
{
    match cx.signature(requirement) {
        Some(Signature::Callable(signature)) => {
            let params = instantiate_params(types, &signature.params, self_ty, concept);
            let return_ty = instantiate_concept_type(
                types,
                signature.return_ty,
                self_ty,
                concept,
                false,
            );
            let bounds = instantiate_concept_bounds(types, &signature.bounds, self_ty, concept);
            let call_bounds = instantiate_concept_bounds(
                types,
                &signature.call_bounds,
                self_ty,
                concept,
            );
            Some(
                CallableSignature {
                    is_async: signature.is_async,
                    generic_params: signature.generic_params.clone(),
                    call_generic_params: signature.call_generic_params.clone(),
                    receiver: signature.receiver,
                    params,
                    return_ty,
                    bounds,
                    call_bounds,
                },
            )
        },
        _ => None,
    }
}

// Methods that a call by name may reach.

/// A method of an inherent implementation that fits a receiver.
pub struct InherentCandidate {
    pub method: DefId,
    pub target: TyId,
    pub substitution: Substitution,
}

/// The methods of one implementation that can be called by a name.
pub open spec fn methods_named(
    cx: &Context,
    methods: Chain<DefId>,
    name: Seq<char>,
    target: TyId,
    substitution: Substitution,
    list: Chain<InherentCandidate>,
) -> Chain<InherentCandidate>
    decreases methods,
{
    match methods {
        Chain::Empty => list,
        Chain::Link(link) => {
            let list = methods_named(cx, link.rest, name, target, substitution, list);
            if is_callable_method(cx, link.item, name) {
                list.pushed(InherentCandidate { method: link.item, target, substitution })
            } else {
                list
            }
        },
    }
}

/// The method has the name and is visible in the body.
pub open spec fn is_callable_method(cx: &Context, method: DefId, name: Seq<char>) -> bool {
    cx.program.has_name(method, name) && (is_public(cx, method) || cx.program.sees_private(
        cx.program.module_of(cx.environment.owner),
        cx.program.module_of(method),
    ))
}

pub open spec fn is_public(cx: &Context, definition: DefId) -> bool {
    match crate::hir::at(cx.program.definitions@, definition.0) {
        Some(found) => found.visibility == Visibility::Public,
        None => false,
    }
}

fn check_public(cx: &Context, definition: DefId) -> (public: bool)
    ensures
        public == is_public(cx, definition),
{
    match crate::hir::get(&cx.program.definitions, definition.0) {
        Some(found) => found.visibility == Visibility::Public,
        None => false,
    }
}

fn add_methods_named(
    cx: &Context,
    methods: &Chain<DefId>,
    name: &String,
    target: TyId,
    substitution: &Substitution,
    list: Chain<InherentCandidate>,
) -> (result: Chain<InherentCandidate>)
    ensures
        result == methods_named(cx, *methods, name@, target, *substitution, list),
    decreases methods,
{
    match methods {
        Chain::Empty => list,
        Chain::Link(link) => {
            let list = add_methods_named(cx, &link.rest, name, target, substitution, list);
            let callable = cx.program.is_called(link.item, name) && (check_public(cx, link.item)
                || cx.program.can_access_private(
                cx.program.module(cx.environment.owner),
                cx.program.module(link.item),
            ));
            if callable {
                list.with(
                    InherentCandidate {
                        method: link.item,
                        target,
                        substitution: substitution.clone(),
                    },
                )
            } else {
                list
            }
        },
    }
}

/// The list with the methods that one definition adds.
pub open spec fn inherent_of(
    cx: &Context,
    types: Seq<TyData>,
    item: Definition,
    receiver: TyId,
    name: Seq<char>,
    list: Chain<InherentCandidate>,
) -> Chain<InherentCandidate> {
    match item.kind {
        DefinitionKind::InherentImpl { generic_params: _, target: written, methods } =>
            if cx.program.holds_tests(item.module) && item.module != cx.program.module_of(
                cx.environment.owner,
            ) {
                list
            } else {
                match cx.type_refs.lookup(written.0) {
                    Some(target) => {
                        let (substitution, fits) = unified(
                            types,
                            target,
                            receiver,
                            Substitution::empty(),
                        );
                        if fits {
                            methods_named(cx, methods, name, target, substitution, list)
                        } else {
                            list
                        }
                    },
                    None => list,
                }
            },
        _ => list,
    }
}

/// The inherent methods of the first `count` definitions that a call of a
/// name on a receiver may reach.
pub open spec fn inherent_candidates(
    cx: &Context,
    types: Seq<TyData>,
    receiver: TyId,
    name: Seq<char>,
    count: nat,
) -> Chain<InherentCandidate>
    decreases count,
{
    if count == 0 {
        Chain::Empty
    } else {
        inherent_of(
            cx,
            types,
            cx.program.definitions@[count - 1],
            receiver,
            name,
            inherent_candidates(cx, types, receiver, name, (count - 1) as nat),
        )
    }
}

fn add_inherent(
    cx: &Context,
    types: &TyInterner,
    item: &Definition,
    receiver: TyId,
    name: &String,
    list: Chain<InherentCandidate>,
) -> (result: Chain<InherentCandidate>)
    requires
        types_wf(types@),
    ensures
        result == inherent_of(cx, types@, *item, receiver, name@, list),
{
    match &item.kind {
        DefinitionKind::InherentImpl { generic_params: _, target: written, methods } => {
            if cx.program.is_test_companion(item.module) && item.module != cx.program.module(
                cx.environment.owner,
            ) {
                return list;
            }
            match cx.type_refs.get(written.0) {
                Some(target) => {
                    let mut substitution = Substitution::default();
                    if unify_type(types, *target, receiver, &mut substitution) {
                        add_methods_named(cx, methods, name, *target, &substitution, list)
                    } else {
                        list
                    }
                },
                None => list,
            }
        },
        _ => list,
    }
}

pub(crate) fn find_inherent_candidates(
    cx: &Context,
    types: &TyInterner,
    receiver: TyId,
    name: &String,
) -> (result: Chain<InherentCandidate>)
    requires
        types_wf(types@),
    ensures
        result == inherent_candidates(
            cx,
            types@,
            receiver,
            name@,
            cx.program.definitions@.len(),
        ),
{
    let count: usize = cx.program.definitions.len();
    let mut list: Chain<InherentCandidate> = Chain::new();
    let mut i: usize = 0;
    while i < count
        invariant
            i <= count,
            count == cx.program.definitions@.len(),
            types_wf(types@),
            list == inherent_candidates(cx, types@, receiver, name@, i as nat),
        decreases count - i,
    {
        list = add_inherent(cx, types, &cx.program.definitions[i], receiver, name, list);
        i = i + 1;
    }
    list
}

/// A requirement of a concept that a receiver conforms to.
pub struct ConceptCandidate {
    pub requirement: DefId,
    pub concept: ConceptInstance,
    pub witness: WitnessSelection,
}

/// The requirements with a name, of the given concepts, that a call on a
/// receiver may reach.
pub open spec fn concept_candidates(
    cx: &Context,
    types: Seq<TyData>,
    concepts: Chain<DefId>,
    receiver: TyId,
    name: Seq<char>,
) -> (Seq<TyData>, Chain<ConceptCandidate>)
    decreases concepts,
{
    match concepts {
        Chain::Empty => (types, Chain::Empty),
        Chain::Link(link) => {
            let (types, list) = concept_candidates(cx, types, link.rest, receiver, name);
            match cx.program.requirement_named(link.item, name) {
                None => (types, list),
                Some(requirement) => match solved(
                    cx,
                    types,
                    crate::obligations::marker_goal(receiver, link.item),
                ) {
                    (types, Ok(witness)) => (
                        types,
                        list.pushed(
                            ConceptCandidate {
                                requirement,
                                concept: ConceptInstance {
                                    concept: link.item,
                                    bindings: witness.associated_types,
                                },
                                witness,
                            },
                        ),
                    ),
                    (types, Err(_)) => (types, list),
                },
            }
        },
    }
}

pub(crate) fn find_concrete_concept_candidates(
    cx: &Context,
    types: &mut TyInterner,
    concepts: &Chain<DefId>,
    receiver: TyId,
    name: &String,
) -> (result: Chain<ConceptCandidate>)
    requires
        types_wf(old(types)@),
    ensures
        types_wf(final(types)@),
        later(old(types)@, final(types)@),
        (final(types)@, result) == concept_candidates(
            cx,
            old(types)@,
            *concepts,
            receiver,
            name@,
        ),
    decreases concepts,
{
    match concepts {
        Chain::Empty => Chain::new(),
        Chain::Link(link) => {
            let list = find_concrete_concept_candidates(cx, types, &link.rest, receiver, name);
            match cx.program.concept_method(link.item, name) {
                None => list,
                Some(requirement) => {
                    let goal = Goal {
                        self_ty: receiver,
                        concept: ConceptInstance { concept: link.item, bindings: Chain::new() },
                    };
                    match solve(cx, types, &goal) {
                        Ok(witness) => list.with(
                            ConceptCandidate {
                                requirement,
                                concept: ConceptInstance {
                                    concept: link.item,
                                    bindings: witness.associated_types.clone(),
                                },
                                witness,
                            },
                        ),
                        Err(_) => list,
                    }
                },
            }
        },
    }
}

/// A bound of the body that provides a method.
pub struct BoundCandidate {
    pub index: usize,
    pub bound: Bound,
    pub requirement: DefId,
}

/// The bounds on the type of a receiver that provide a method.
pub open spec fn bound_candidates(
    cx: &Context,
    bounds: Chain<Bound>,
    receiver: TyId,
    name: Seq<char>,
) -> Chain<BoundCandidate>
    decreases bounds,
{
    match bounds {
        Chain::Empty => Chain::Empty,
        Chain::Link(link) => {
            let list = bound_candidates(cx, link.rest, receiver, name);
            if link.item.self_ty != receiver {
                list
            } else {
                match cx.program.requirement_named(link.item.concept.concept, name) {
                    Some(requirement) => list.pushed(
                        BoundCandidate { index: link.rest.count(), bound: link.item, requirement },
                    ),
                    None => list,
                }
            }
        },
    }
}

pub(crate) fn find_bound_candidates(
    cx: &Context,
    bounds: &Chain<Bound>,
    receiver: TyId,
    name: &String,
) -> (result: Chain<BoundCandidate>)
    ensures
        result == bound_candidates(cx, *bounds, receiver, name@),
    decreases bounds,
{
    match bounds {
        Chain::Empty => Chain::new(),
        Chain::Link(link) => {
            let list = find_bound_candidates(cx, &link.rest, receiver, name);
            if link.item.self_ty != receiver {
                return list;
            }
            match cx.program.concept_method(link.item.concept.concept, name) {
                Some(requirement) => {
                    let index: usize = link.rest.len();
                    list.with(BoundCandidate { index, bound: link.item.clone(), requirement })
                },
                None => list,
            }
        },
    }
}

/// The types of the parameters.
pub open spec fn types_of(params: Chain<(ParamId, TyId)>) -> Chain<TyId>
    decreases params,
{
    match params {
        Chain::Empty => Chain::Empty,
        Chain::Link(link) => types_of(link.rest).pushed(link.item.1),
    }
}

pub(crate) fn parameter_types(params: &Chain<(ParamId, TyId)>) -> (types: Chain<TyId>)
    ensures
        types == types_of(*params),
    decreases params,
{
    match params {
        Chain::Empty => Chain::new(),
        Chain::Link(link) => parameter_types(&link.rest).with(link.item.1),
    }
}

/// The type of an argument and the declared type of its parameter.
#[derive(Clone, Copy, Debug, PartialEq, Eq, Structural)]
pub struct Actual {
    pub actual: TyId,
    pub declared: TyId,
}

/// The argument behind `before` has no element in `list`.
pub open spec fn is_behind<A, B>(before: Chain<A>, skip_first: bool, list: Chain<B>) -> bool {
    if skip_first {
        before.spec_len() > list.spec_len()
    } else {
        before.spec_len() >= list.spec_len()
    }
}

pub(crate) fn check_behind<A, B>(before: &Chain<A>, skip_first: bool, list: &Chain<B>) -> (result:
    bool)
    ensures
        result == is_behind(*before, skip_first, *list),
{
    if skip_first {
        longer(before, list)
    } else {
        !longer(list, before)
    }
}

/// The element of a list that belongs to the argument behind `before`.
pub open spec fn type_for<A>(list: Chain<TyId>, before: Chain<A>, skip_first: bool) -> Option<TyId>
    decreases list,
{
    match list {
        Chain::Empty => None,
        Chain::Link(link) => if is_behind(before, skip_first, list) {
            None
        } else if is_behind(before, skip_first, link.rest) {
            Some(link.item)
        } else {
            type_for(link.rest, before, skip_first)
        },
    }
}

pub(crate) fn find_type_for<A>(list: &Chain<TyId>, before: &Chain<A>, skip_first: bool) -> (ty:
    Option<TyId>)
    ensures
        ty == type_for(*list, *before, skip_first),
    decreases list,
{
    match list {
        Chain::Empty => None,
        Chain::Link(link) => if check_behind(before, skip_first, list) {
            None
        } else if check_behind(before, skip_first, &link.rest) {
            Some(link.item)
        } else {
            find_type_for(&link.rest, before, skip_first)
        },
    }
}

/// An argument through which a call may write.
pub struct Mutation {
    pub span: Span,
    pub owner: Place,
    pub ty: TyId,
}

/// The place that an interface argument writes to.
pub open spec fn written_place(w: World, argument: ExprId) -> Option<Place> {
    match w.st.semantics.views.lookup(argument.0) {
        Some(view) => if view.mutable {
            match view.source {
                ViewSource::Concrete { witness: _, writeback } => writeback,
                ViewSource::Interface { owner } => Some(owner),
            }
        } else {
            None
        },
        None => None,
    }
}

impl World {
    pub open spec fn is_view(self, ty: TyId) -> bool {
        self.data(ty) is View
    }

    #[verifier::opaque]
    pub open spec fn with_mode(self, dynamic_coercion_mode: DynamicCoercionMode) -> World {
        World { st: CheckState { dynamic_coercion_mode, ..self.st }, ..self }
    }

    #[verifier::opaque]
    pub open spec fn call_arity(self, span: Span, expected: usize, actual: usize) -> World {
        self.error(
            "TypeMismatch",
            Message::Counts("call expects ", expected, " arguments, found ", actual, ""),
            span,
        )
    }

    /// Reports a wrong number of arguments.
    #[verifier::opaque]
    pub open spec fn check_arity<A, B>(
        self,
        span: Span,
        expected: Chain<A>,
        actual: Chain<B>,
    ) -> World {
        if expected.spec_len() != actual.spec_len() {
            self.call_arity(span, expected.count(), actual.count())
        } else {
            self
        }
    }

    #[verifier::opaque]
    pub open spec fn finish_async_call(
        self,
        cx: &Context,
        span: Span,
        is_async: bool,
        output: TyId,
    ) -> (
        World,
        TyId,
    ) {
        if !is_async {
            (self, output)
        } else {
            let (w, task) = self.has_task_obligation(cx, output);
            let w = if task {
                w.text_error(
                    "TaskAsyncResultUnsupported",
                    "an instantiated async callable cannot complete with a Task-carrying result before runtime reparenting is available",
                    span,
                )
            } else {
                w
            };
            w.intern(TyData::Task(output))
        }
    }

    /// A receiver is handed to a method with the tasks it carries.
    #[verifier::opaque]
    pub open spec fn transfer_task_receiver(
        self,
        cx: &Context,
        receiver: Expr,
        receiver_ty: TyId,
        declared_task_carrier: bool,
        is_async: bool,
    ) -> World {
        let (w, task) = self.has_task_obligation(cx, receiver_ty);
        if !task {
            w
        } else {
            let w = if is_async {
                w.text_error(
                    "TaskAsyncTransferUnsupported",
                    "a Task-carrying receiver cannot cross an async call boundary before runtime reparenting is available",
                    receiver.span,
                )
            } else if !declared_task_carrier {
                w.text_error(
                    "TaskGenericTransferUnsupported",
                    "a Task-carrying receiver cannot pass through a generic or concept receiver that does not explicitly declare the obligation",
                    receiver.span,
                )
            } else {
                w
            };
            w.consume_task_obligation(cx, receiver)
        }
    }

    #[verifier::opaque]
    pub open spec fn witness_declares_task_receiver(
        self,
        cx: &Context,
        witness: WitnessSelection,
    ) -> (World, bool) {
        match witness.source {
            WitnessSource::Implementation(implementation) => match indexed_header(
                cx.impl_index.buckets,
                implementation,
            ) {
                Some(header) => self.has_task_obligation(cx, header.target),
                None => (self, false),
            },
            _ => (self, false),
        }
    }

    #[verifier::opaque]
    pub open spec fn reject_explicit_dispose_call(
        self,
        cx: &Context,
        requirement: DefId,
        span: Span,
    ) -> World {
        if cx.canonical_concepts.dispose_requirement == Some(requirement) {
            self.text_error(
                "ManualDisposeOfScopedValue",
                "Dispose is reserved for automatic scoped cleanup and cannot be invoked directly",
                span,
            )
        } else {
            self
        }
    }

    pub open spec fn is_mutable_receiver(self, receiver: ExprId) -> bool {
        crate::coerce::is_mutable_place(self.place_of(receiver))
    }

    /// A method that writes its receiver needs a place that can be written.
    #[verifier::opaque]
    pub open spec fn require_mutable(
        self,
        receiver: Expr,
        needed: bool,
        text: &'static str,
    ) -> World {
        if needed && !self.is_mutable_receiver(receiver.id) {
            self.text_error("MutReceiverRequiresVar", text, receiver.span)
        } else {
            self
        }
    }

    /// What is known of the type arguments of a call before its arguments are
    /// checked.
    #[verifier::opaque]
    pub open spec fn start_callable(
        self,
        e: Expr,
        signature: CallableSignature,
        arguments: Chain<Expr>,
        skip_first: bool,
        explicit: Chain<TyId>,
        expected: Option<TyId>,
        substitution: Substitution,
    ) -> (World, Substitution) {
        let w = self.check_arity(
            e.span,
            signature.params,
            if skip_first {
                arguments.without_last()
            } else {
                arguments
            },
        );
        let w = if explicit.spec_len() > signature.call_generic_params.spec_len() {
            w.text_error("TypeMismatch", "too many explicit generic arguments", e.span)
        } else {
            w
        };
        let substitution = paired(signature.call_generic_params, explicit, substitution);
        match expected {
            Some(expected) => (
                w,
                unified(w.types, signature.return_ty, expected, substitution).0,
            ),
            None => (w, substitution),
        }
    }

    /// The generic parameters that nothing determines are reported.
    #[verifier::opaque]
    pub open spec fn report_uninferred(
        self,
        span: Span,
        parameters: Chain<GenericParamId>,
        substitution: Substitution,
    ) -> World
        decreases parameters,
    {
        match parameters {
            Chain::Empty => self,
            Chain::Link(link) => {
                let w = self.report_uninferred(span, link.rest, substitution);
                if substitution.lookup(link.item) is None {
                    w.error(
                        "CannotInferType",
                        Message::GenericParam("cannot infer generic parameter `", link.item, "`"),
                        span,
                    )
                } else {
                    w
                }
            },
        }
    }

    /// One argument is adapted to the type of its parameter, and handed on with
    /// the tasks it carries.
    #[verifier::opaque]
    pub open spec fn pass_argument(
        self,
        cx: &Context,
        is_async: bool,
        argument: Expr,
        types: Actual,
        substitution: Substitution,
    ) -> World {
        let (w, expected) = self.substitute(types.declared, substitution);
        let (w, must_scope) = w.has_must_scope_obligation(cx, expected);
        let w = if must_scope {
            w.text_error(
                "MustScopeArgumentNotAllowed",
                "a value containing a MustScope resource cannot be passed as an ordinary argument",
                argument.span,
            )
        } else {
            w
        };
        let w = w.pass_argument_tasks(cx, is_async, argument, types);
        let mode = w.st.dynamic_coercion_mode;
        let w = if !is_async && w.is_view(expected) {
            w.with_mode(DynamicCoercionMode::CallBorrow)
        } else {
            w
        };
        w.coerce(cx, argument, types.actual, expected).0.with_mode(mode)
    }

    #[verifier::opaque]
    pub open spec fn pass_argument_tasks(
        self,
        cx: &Context,
        is_async: bool,
        argument: Expr,
        types: Actual,
    ) -> World {
        let (w, task) = self.has_task_obligation(cx, types.actual);
        if !task {
            w
        } else {
            let (w, declared) = w.has_task_obligation(cx, types.declared);
            let w = if is_async {
                w.text_error(
                    "TaskAsyncTransferUnsupported",
                    "a Task-carrying value cannot cross an async call boundary before runtime reparenting is available",
                    argument.span,
                )
            } else if !declared {
                w.text_error(
                    "TaskGenericTransferUnsupported",
                    "a Task-carrying value cannot pass through an unconstrained generic parameter",
                    argument.span,
                )
            } else {
                w
            };
            w.consume_task_obligation(cx, argument)
        }
    }

    /// The arguments are adapted to their parameters. The result holds those
    /// through which the call may write. The first argument is left out where
    /// it is the receiver, and so are those behind the last parameter.
    #[verifier::opaque]
    pub open spec fn coerce_callable_arguments(
        self,
        cx: &Context,
        is_async: bool,
        arguments: Chain<Expr>,
        skip_first: bool,
        actuals: Chain<Actual>,
        substitution: Substitution,
    ) -> (World, Chain<Mutation>)
        decreases arguments,
    {
        match arguments {
            Chain::Empty => (self, Chain::Empty),
            Chain::Link(link) => if skip_first && link.rest is Empty {
                (self, Chain::Empty)
            } else if is_behind(link.rest, skip_first, actuals) {
                self.coerce_callable_arguments(
                    cx,
                    is_async,
                    link.rest,
                    skip_first,
                    actuals,
                    substitution,
                )
            } else {
                match actuals {
                    Chain::Empty => (self, Chain::Empty),
                    Chain::Link(types) => {
                        let (w, list) = self.coerce_callable_arguments(
                            cx,
                            is_async,
                            link.rest,
                            skip_first,
                            types.rest,
                            substitution,
                        );
                        let w = w.pass_argument(cx, is_async, link.item, types.item, substitution);
                        match written_place(w, link.item.id) {
                            Some(owner) => (
                                w,
                                list.pushed(
                                    Mutation {
                                        span: link.item.span,
                                        owner,
                                        ty: types.item.actual,
                                    },
                                ),
                            ),
                            None => (w, list),
                        }
                    },
                }
            },
        }
    }

    /// The places that a call writes through interface arguments. The result
    /// says whether `self` becomes dirty, and whether that was reported.
    #[verifier::opaque]
    pub open spec fn apply_mutations(
        self,
        cx: &Context,
        list: Chain<Mutation>,
        dirty_before: bool,
    ) -> (
        World,
        bool,
        bool,
    )
        decreases list,
    {
        match list {
            Chain::Empty => (self, false, false),
            Chain::Link(link) => {
                let (w, dirties, reported) = self.apply_mutations(cx, link.rest, dirty_before);
                let (w, crosses) = w.check_invariant_mutation_boundary(
                    cx,
                    link.item.span,
                    link.item.owner,
                    InvariantMutation::ReceiverCall,
                );
                let report = crosses && dirty_before && !reported;
                let w = if report {
                    w.text_error(
                        "InvariantIsolationViolation",
                        "a mutated receiver cannot enter another mutable interface call before its invariant is restored",
                        link.item.span,
                    )
                } else {
                    w
                };
                (
                    w.invalidate_mutated_place(cx, link.item.owner, link.item.ty),
                    dirties || crosses,
                    reported || report,
                )
            },
        }
    }

    /// What follows from the checked arguments of a call: the type that it
    /// returns.
    #[verifier::opaque]
    pub open spec fn end_callable(
        self,
        cx: &Context,
        e: Expr,
        signature: CallableSignature,
        arguments: Chain<Expr>,
        skip_first: bool,
        actuals: Chain<Actual>,
        substitution: Substitution,
    ) -> (World, TyId) {
        let w = self.report_uninferred(e.span, signature.call_generic_params, substitution);
        let (w, list) = w.coerce_callable_arguments(
            cx,
            signature.is_async,
            arguments,
            skip_first,
            actuals,
            substitution,
        );
        let (after, dirties, _) = w.apply_mutations(cx, list, w.st.flow.self_dirty);
        let after = after.with_dirty(after.st.flow.self_dirty || dirties);
        after.substitute(signature.return_ty, substitution)
    }

    /// The call is settled: its evidence, its type and what it reaches.
    #[verifier::opaque]
    pub open spec fn settle_call(
        self,
        cx: &Context,
        e: Expr,
        arguments: Chain<Expr>,
        skip_first: bool,
        signature: CallableSignature,
        return_ty: TyId,
        substitution: Substitution,
        target: CallTarget,
        dispatch_witness: Option<WitnessSelection>,
        receiver: Option<ReceiverPassing>,
    ) -> (World, TyId) {
        let w = self.finish_call_arguments(arguments, skip_first);
        let (w, witnesses) = w.resolve_bounds(cx, signature.bounds, substitution, e.span);
        let (w, return_ty) = w.normalize_call_type(
            return_ty,
            signature,
            substitution,
            witnesses,
        );
        (
            w.set_call(
                e.id,
                CallResolution { target, substitution, dispatch_witness, witnesses, receiver },
            ),
            return_ty,
        )
    }

    /// The receiver is a local that a `scoped` statement binds.
    pub open spec fn is_scoped_receiver(self, receiver: ExprId) -> bool {
        match self.place_of(receiver) {
            Some(place) => place.projections is Empty && match place.root {
                PlaceRoot::Local(local) => has_id(self.st.scoped_locals, local.0),
                _ => false,
            },
            None => false,
        }
    }
}

impl BodyChecker {
    pub fn is_view(&self, ty: TyId) -> (view: bool)
        requires
            self.wf(),
        ensures
            view == self@.is_view(ty),
    {
        match self.types.data(ty) {
            TyData::View { mutability: _, target: _ } => true,
            _ => false,
        }
    }

    pub fn set_mode(&mut self, mode: DynamicCoercionMode)
        ensures
            adds_to(old(self)@.st.diagnostics, final(self)@.st.diagnostics),
            final(self)@.types == old(self)@.types,
            final(self)@ == old(self)@.with_mode(mode),
    {
        proof {
            reveal(World::with_mode);
        }
        self.st.dynamic_coercion_mode = mode;
    }

    pub fn call_arity(&mut self, span: Span, expected: usize, actual: usize)
        ensures
            adds_to(old(self)@.st.diagnostics, final(self)@.st.diagnostics),
            final(self)@.types == old(self)@.types,
            final(self)@ == old(self)@.call_arity(span, expected, actual),
    {
        proof {
            reveal(World::call_arity);
        }
        self.error(
            "TypeMismatch",
            Message::Counts("call expects ", expected, " arguments, found ", actual, ""),
            span,
        );
    }

    pub fn check_arity<A, B>(&mut self, span: Span, expected: &Chain<A>, actual: &Chain<B>)
        ensures
            adds_to(old(self)@.st.diagnostics, final(self)@.st.diagnostics),
            final(self)@.types == old(self)@.types,
            final(self)@ == old(self)@.check_arity(span, *expected, *actual),
    {
        proof {
            reveal(World::check_arity);
        }
        if !crate::chain::same_length(expected, actual) {
            let wanted: usize = expected.len();
            let given: usize = actual.len();
            self.call_arity(span, wanted, given);
        }
    }

    pub fn finish_async_call(
        &mut self,
        cx: &Context,
        span: Span,
        is_async: bool,
        output: TyId,
    ) -> (ty:
        TyId)
        requires
            old(self).wf(),
        ensures
            adds_to(old(self)@.st.diagnostics, final(self)@.st.diagnostics),
            final(self).wf(),
            later(old(self)@.types, final(self)@.types),
            (final(self)@, ty) == old(self)@.finish_async_call(cx, span, is_async, output),
    {
        proof {
            reveal(World::finish_async_call);
        }
        if !is_async {
            return output;
        }
        if self.has_task_obligation(cx, output) {
            self.text_error(
                "TaskAsyncResultUnsupported",
                "an instantiated async callable cannot complete with a Task-carrying result before runtime reparenting is available",
                span,
            );
        }
        self.intern(TyData::Task(output))
    }

    pub fn transfer_task_receiver(
        &mut self,
        cx: &Context,
        receiver: &Expr,
        receiver_ty: TyId,
        declared_task_carrier: bool,
        is_async: bool,
    )
        requires
            old(self).wf(),
        ensures
            adds_to(old(self)@.st.diagnostics, final(self)@.st.diagnostics),
            final(self).wf(),
            later(old(self)@.types, final(self)@.types),
            final(self)@ == old(self)@.transfer_task_receiver(
                cx,
                *receiver,
                receiver_ty,
                declared_task_carrier,
                is_async,
            ),
    {
        proof {
            reveal(World::transfer_task_receiver);
        }
        if !self.has_task_obligation(cx, receiver_ty) {
            return;
        }
        if is_async {
            self.text_error(
                "TaskAsyncTransferUnsupported",
                "a Task-carrying receiver cannot cross an async call boundary before runtime reparenting is available",
                receiver.span,
            );
        } else if !declared_task_carrier {
            self.text_error(
                "TaskGenericTransferUnsupported",
                "a Task-carrying receiver cannot pass through a generic or concept receiver that does not explicitly declare the obligation",
                receiver.span,
            );
        }
        self.consume_task_obligation(cx, receiver);
    }

    pub fn witness_declares_task_receiver(
        &mut self,
        cx: &Context,
        witness: &WitnessSelection,
    ) -> (result:
        bool)
        requires
            old(self).wf(),
        ensures
            adds_to(old(self)@.st.diagnostics, final(self)@.st.diagnostics),
            final(self).wf(),
            later(old(self)@.types, final(self)@.types),
            (final(self)@, result) == old(self)@.witness_declares_task_receiver(cx, *witness),
    {
        proof {
            reveal(World::witness_declares_task_receiver);
        }
        match &witness.source {
            WitnessSource::Implementation(implementation) => match cx.impl_index.header(
                *implementation,
            ) {
                Some(header) => self.has_task_obligation(cx, header.target),
                None => false,
            },
            _ => false,
        }
    }

    pub fn reject_explicit_dispose_call(&mut self, cx: &Context, requirement: DefId, span: Span)
        ensures
            adds_to(old(self)@.st.diagnostics, final(self)@.st.diagnostics),
            final(self)@.types == old(self)@.types,
            final(self)@ == old(self)@.reject_explicit_dispose_call(cx, requirement, span),
    {
        proof {
            reveal(World::reject_explicit_dispose_call);
        }
        match cx.canonical_concepts.dispose_requirement {
            Some(found) => if found == requirement {
                self.text_error(
                    "ManualDisposeOfScopedValue",
                    "Dispose is reserved for automatic scoped cleanup and cannot be invoked directly",
                    span,
                );
            },
            None => {},
        }
    }

    pub fn require_mutable(&mut self, receiver: &Expr, needed: bool, text: &'static str)
        ensures
            adds_to(old(self)@.st.diagnostics, final(self)@.st.diagnostics),
            final(self)@.types == old(self)@.types,
            final(self)@ == old(self)@.require_mutable(*receiver, needed, text),
    {
        proof {
            reveal(World::require_mutable);
        }
        let mutable = match self.place(receiver.id) {
            Some(place) => place.mutability == Mutability::Mutable,
            None => false,
        };
        if needed && !mutable {
            self.text_error("MutReceiverRequiresVar", text, receiver.span);
        }
    }

    pub fn start_callable(
        &mut self,
        e: &Expr,
        signature: &CallableSignature,
        arguments: &Chain<Expr>,
        skip_first: bool,
        explicit: &Chain<TyId>,
        expected: Option<TyId>,
        substitution: &Substitution,
    ) -> (result: Substitution)
        requires
            old(self).wf(),
        ensures
            adds_to(old(self)@.st.diagnostics, final(self)@.st.diagnostics),
            final(self).wf(),
            later(old(self)@.types, final(self)@.types),
            (final(self)@, result) == old(self)@.start_callable(
                *e,
                *signature,
                *arguments,
                skip_first,
                *explicit,
                expected,
                *substitution,
            ),
    {
        proof {
            reveal(World::start_callable);
        }
        if skip_first {
            let mut rest = arguments.clone();
            rest.drop_last();
            self.check_arity(e.span, &signature.params, &rest);
        } else {
            self.check_arity(e.span, &signature.params, arguments);
        }
        if longer(explicit, &signature.call_generic_params) {
            self.text_error("TypeMismatch", "too many explicit generic arguments", e.span);
        }
        let mut result = pair_params(&signature.call_generic_params, explicit, substitution);
        match expected {
            Some(expected) => {
                unify_type(&self.types, signature.return_ty, expected, &mut result);
            },
            None => {},
        }
        result
    }

    fn report_uninferred(
        &mut self,
        span: Span,
        parameters: &Chain<GenericParamId>,
        substitution: &Substitution,
    )
        ensures
            adds_to(old(self)@.st.diagnostics, final(self)@.st.diagnostics),
            final(self)@.types == old(self)@.types,
            final(self)@ == old(self)@.report_uninferred(span, *parameters, *substitution),
        decreases parameters,
    {
        proof {
            reveal(World::report_uninferred);
        }
        match parameters {
            Chain::Empty => {},
            Chain::Link(link) => {
                self.report_uninferred(span, &link.rest, substitution);
                if substitution.get(link.item).is_none() {
                    self.error(
                        "CannotInferType",
                        Message::GenericParam("cannot infer generic parameter `", link.item, "`"),
                        span,
                    );
                }
            },
        }
    }

    fn pass_argument(
        &mut self,
        cx: &Context,
        is_async: bool,
        argument: &Expr,
        types: Actual,
        substitution: &Substitution,
    )
        requires
            old(self).wf(),
        ensures
            adds_to(old(self)@.st.diagnostics, final(self)@.st.diagnostics),
            final(self).wf(),
            later(old(self)@.types, final(self)@.types),
            final(self)@ == old(self)@.pass_argument(
                cx,
                is_async,
                *argument,
                types,
                *substitution,
            ),
    {
        proof {
            reveal(World::pass_argument);
        }
        let expected = self.substitute(types.declared, substitution);
        if self.has_must_scope_obligation(cx, expected) {
            self.text_error(
                "MustScopeArgumentNotAllowed",
                "a value containing a MustScope resource cannot be passed as an ordinary argument",
                argument.span,
            );
        }
        self.pass_argument_tasks(cx, is_async, argument, types);
        let mode = self.st.dynamic_coercion_mode;
        if !is_async && self.is_view(expected) {
            self.set_mode(DynamicCoercionMode::CallBorrow);
        }
        self.coerce(cx, argument, types.actual, expected);
        self.set_mode(mode);
    }

    fn pass_argument_tasks(&mut self, cx: &Context, is_async: bool, argument: &Expr, types: Actual)
        requires
            old(self).wf(),
        ensures
            adds_to(old(self)@.st.diagnostics, final(self)@.st.diagnostics),
            final(self).wf(),
            later(old(self)@.types, final(self)@.types),
            final(self)@ == old(self)@.pass_argument_tasks(cx, is_async, *argument, types),
    {
        proof {
            reveal(World::pass_argument_tasks);
        }
        if !self.has_task_obligation(cx, types.actual) {
            return;
        }
        let declared = self.has_task_obligation(cx, types.declared);
        if is_async {
            self.text_error(
                "TaskAsyncTransferUnsupported",
                "a Task-carrying value cannot cross an async call boundary before runtime reparenting is available",
                argument.span,
            );
        } else if !declared {
            self.text_error(
                "TaskGenericTransferUnsupported",
                "a Task-carrying value cannot pass through an unconstrained generic parameter",
                argument.span,
            );
        }
        self.consume_task_obligation(cx, argument);
    }

    fn written_place(&self, argument: ExprId) -> (owner: Option<Place>)
        ensures
            owner == written_place(self@, argument),
    {
        match self.st.semantics.views.get(argument.0) {
            Some(view) => if view.mutable {
                match &view.source {
                    ViewSource::Concrete { witness: _, writeback } => match writeback {
                        Some(place) => Some(place.clone()),
                        None => None,
                    },
                    ViewSource::Interface { owner } => Some(owner.clone()),
                }
            } else {
                None
            },
            None => None,
        }
    }

    fn coerce_callable_arguments(
        &mut self,
        cx: &Context,
        is_async: bool,
        arguments: &Chain<Expr>,
        skip_first: bool,
        actuals: &Chain<Actual>,
        substitution: &Substitution,
    ) -> (list: Chain<Mutation>)
        requires
            old(self).wf(),
        ensures
            adds_to(old(self)@.st.diagnostics, final(self)@.st.diagnostics),
            final(self).wf(),
            later(old(self)@.types, final(self)@.types),
            (final(self)@, list) == old(self)@.coerce_callable_arguments(
                cx,
                is_async,
                *arguments,
                skip_first,
                *actuals,
                *substitution,
            ),
        decreases arguments,
    {
        proof {
            reveal(World::coerce_callable_arguments);
        }
        match arguments {
            Chain::Empty => Chain::new(),
            Chain::Link(link) => if skip_first && link.rest.is_empty() {
                Chain::new()
            } else if check_behind(&link.rest, skip_first, actuals) {
                self.coerce_callable_arguments(
                    cx,
                    is_async,
                    &link.rest,
                    skip_first,
                    actuals,
                    substitution,
                )
            } else {
                match actuals {
                    Chain::Empty => Chain::new(),
                    Chain::Link(types) => {
                        let list = self.coerce_callable_arguments(
                            cx,
                            is_async,
                            &link.rest,
                            skip_first,
                            &types.rest,
                            substitution,
                        );
                        self.pass_argument(cx, is_async, &link.item, types.item, substitution);
                        match self.written_place(link.item.id) {
                            Some(owner) => list.with(
                                Mutation { span: link.item.span, owner, ty: types.item.actual },
                            ),
                            None => list,
                        }
                    },
                }
            },
        }
    }

    fn apply_mutable_dynamic_mutations(
        &mut self,
        cx: &Context,
        list: &Chain<Mutation>,
        dirty_before: bool,
    ) -> (result: (bool, bool))
        requires
            old(self).wf(),
        ensures
            adds_to(old(self)@.st.diagnostics, final(self)@.st.diagnostics),
            final(self).wf(),
            later(old(self)@.types, final(self)@.types),
            (final(self)@, result.0, result.1) == old(self)@.apply_mutations(
                cx,
                *list,
                dirty_before,
            ),
        decreases list,
    {
        proof {
            reveal(World::apply_mutations);
        }
        match list {
            Chain::Empty => (false, false),
            Chain::Link(link) => {
                let (dirties, reported) = self.apply_mutable_dynamic_mutations(
                    cx,
                    &link.rest,
                    dirty_before,
                );
                let crosses = self.check_invariant_mutation_boundary(
                    cx,
                    link.item.span,
                    &link.item.owner,
                    InvariantMutation::ReceiverCall,
                );
                let report = crosses && dirty_before && !reported;
                if report {
                    self.text_error(
                        "InvariantIsolationViolation",
                        "a mutated receiver cannot enter another mutable interface call before its invariant is restored",
                        link.item.span,
                    );
                }
                self.invalidate_mutated_place(cx, &link.item.owner, link.item.ty);
                (dirties || crosses, reported || report)
            },
        }
    }

    pub fn end_callable(
        &mut self,
        cx: &Context,
        e: &Expr,
        signature: &CallableSignature,
        arguments: &Chain<Expr>,
        skip_first: bool,
        actuals: &Chain<Actual>,
        substitution: &Substitution,
    ) -> (ty: TyId)
        requires
            old(self).wf(),
        ensures
            adds_to(old(self)@.st.diagnostics, final(self)@.st.diagnostics),
            final(self).wf(),
            later(old(self)@.types, final(self)@.types),
            (final(self)@, ty) == old(self)@.end_callable(
                cx,
                *e,
                *signature,
                *arguments,
                skip_first,
                *actuals,
                *substitution,
            ),
    {
        proof {
            reveal(World::end_callable);
        }
        self.report_uninferred(e.span, &signature.call_generic_params, substitution);
        let list = self.coerce_callable_arguments(
            cx,
            signature.is_async,
            arguments,
            skip_first,
            actuals,
            substitution,
        );
        let dirty_before = self.st.flow.self_dirty;
        let (dirties, _) = self.apply_mutable_dynamic_mutations(cx, &list, dirty_before);
        self.st.flow.self_dirty = self.st.flow.self_dirty || dirties;
        self.substitute(signature.return_ty, substitution)
    }

    pub fn settle_call(
        &mut self,
        cx: &Context,
        e: &Expr,
        arguments: &Chain<Expr>,
        skip_first: bool,
        signature: &CallableSignature,
        return_ty: TyId,
        substitution: Substitution,
        target: CallTarget,
        dispatch_witness: Option<WitnessSelection>,
        receiver: Option<ReceiverPassing>,
    ) -> (ty: TyId)
        requires
            old(self).wf(),
        ensures
            adds_to(old(self)@.st.diagnostics, final(self)@.st.diagnostics),
            final(self).wf(),
            later(old(self)@.types, final(self)@.types),
            (final(self)@, ty) == old(self)@.settle_call(
                cx,
                *e,
                *arguments,
                skip_first,
                *signature,
                return_ty,
                substitution,
                target,
                dispatch_witness,
                receiver,
            ),
    {
        proof {
            reveal(World::settle_call);
        }
        self.finish_call_arguments(arguments, skip_first);
        let witnesses = self.resolve_bound_witnesses(cx, signature, &substitution, e.span);
        let return_ty = self.normalize_call_type(return_ty, signature, &substitution, &witnesses);
        self.set_call(
            e.id,
            CallResolution { target, substitution, dispatch_witness, witnesses, receiver },
        );
        return_ty
    }

    pub fn is_scoped_receiver(&self, receiver: ExprId) -> (scoped: bool)
        ensures
            scoped == self@.is_scoped_receiver(receiver),
    {
        match self.place(receiver) {
            Some(place) => place.projections.is_empty() && match place.root {
                PlaceRoot::Local(local) => contains_id(&self.st.scoped_locals, local.0),
                _ => false,
            },
            None => false,
        }
    }
}

} // verus!
