//! The signatures of declarations.

use vstd::prelude::*;

use crate::chain::Chain;
#[allow(unused_imports)]
use crate::diagnostics::{adds_to, lemma_adds_nothing, lemma_adds_one, lemma_adds_through};
use crate::diagnostics::{Diagnostic, Message};
#[allow(unused_imports)]
use crate::diagnostics::labelled;
#[allow(unused_imports)]
use crate::growth::{later, lemma_later_itself, lemma_later_through};
use crate::hir::{get, CallableSource, ConceptRef, DefinitionKind, Program};
#[allow(unused_imports)]
use crate::hir::{at, no_span};
use crate::ids::{DefId, GenericParamId, ParamId, Span, TyId, TypeRefId};
#[allow(unused_imports)]
use crate::lookup::found;
use crate::lookup::find;
#[allow(unused_imports)]
use crate::resolve::{generic_named, Names};
use crate::resolve::{find_generic, Sources, TypeContext, TypeResolver, RESOLUTION_LIMIT};
use crate::semantics::{Bound, CallableSignature, Signature};
use crate::survey::Analyzer;
#[allow(unused_imports)]
use crate::survey::Survey;
use crate::ty::{BuiltinType, TyData};
#[allow(unused_imports)]
use crate::ty::{builtin_ty, error_ty, ty_data};

verus! {

broadcast use {
    lemma_adds_nothing,
    lemma_adds_one,
    lemma_adds_through,
    lemma_later_itself,
    lemma_later_through,
};

/// How many owners of a definition are followed.
pub const OWNER_LIMIT: u32 = u32::MAX;

impl Program {
    /// The generic parameters in reach of a definition: those of its owner
    /// first, then its own.
    pub open spec fn generic_ids(self, definition: DefId, budget: u32) -> Chain<GenericParamId>
        decreases budget,
    {
        match self.kind_of(definition) {
            Some(kind) => match kind {
                DefinitionKind::Record { generic_params, fields: _, invariant_body: _ } =>
                    generic_params,
                DefinitionKind::Enum { generic_params, variants: _ } => generic_params,
                DefinitionKind::Function { signature, is_async: _ } => signature.generic_params,
                DefinitionKind::Test { signature, is_async: _ } => signature.generic_params,
                DefinitionKind::InherentImpl { generic_params, target: _, methods: _ } =>
                    generic_params,
                DefinitionKind::Conformance {
                    generic_params,
                    target: _,
                    concept: _,
                    associated_types: _,
                    methods: _,
                } => generic_params,
                DefinitionKind::Method { owner, signature } => if budget > 0 {
                    self.generic_ids(owner, (budget - 1) as u32).joined(signature.generic_params)
                } else {
                    signature.generic_params
                },
                DefinitionKind::Field { owner, ty: _ } => if budget > 0 {
                    self.generic_ids(owner, (budget - 1) as u32)
                } else {
                    Chain::Empty
                },
                DefinitionKind::Variant { owner, payload: _ } => if budget > 0 {
                    self.generic_ids(owner, (budget - 1) as u32)
                } else {
                    Chain::Empty
                },
                DefinitionKind::AssociatedType { owner, bounds: _, binding: _ } => if budget > 0 {
                    self.generic_ids(owner, (budget - 1) as u32)
                } else {
                    Chain::Empty
                },
                _ => Chain::Empty,
            },
            None => Chain::Empty,
        }
    }

    pub fn collect_generic_ids(&self, definition: DefId, budget: u32) -> (parameters: Chain<
        GenericParamId,
    >)
        ensures
            parameters == self.generic_ids(definition, budget),
        decreases budget,
    {
        match self.kind(definition) {
            Some(kind) => match kind {
                DefinitionKind::Record { generic_params, fields: _, invariant_body: _ } =>
                    generic_params.clone(),
                DefinitionKind::Enum { generic_params, variants: _ } => generic_params.clone(),
                DefinitionKind::Function { signature, is_async: _ } =>
                    signature.generic_params.clone(),
                DefinitionKind::Test { signature, is_async: _ } => signature.generic_params.clone(),
                DefinitionKind::InherentImpl { generic_params, target: _, methods: _ } =>
                    generic_params.clone(),
                DefinitionKind::Conformance {
                    generic_params,
                    target: _,
                    concept: _,
                    associated_types: _,
                    methods: _,
                } => generic_params.clone(),
                DefinitionKind::Method { owner, signature } => if budget > 0 {
                    self.collect_generic_ids(*owner, budget - 1).join(&signature.generic_params)
                } else {
                    signature.generic_params.clone()
                },
                DefinitionKind::Field { owner, ty: _ } => if budget > 0 {
                    self.collect_generic_ids(*owner, budget - 1)
                } else {
                    Chain::new()
                },
                DefinitionKind::Variant { owner, payload: _ } => if budget > 0 {
                    self.collect_generic_ids(*owner, budget - 1)
                } else {
                    Chain::new()
                },
                DefinitionKind::AssociatedType { owner, bounds: _, binding: _ } => if budget > 0 {
                    self.collect_generic_ids(*owner, budget - 1)
                } else {
                    Chain::new()
                },
                _ => Chain::new(),
            },
            None => Chain::new(),
        }
    }

    /// The definition that a member belongs to.
    pub open spec fn owner_of(self, definition: DefId) -> Option<DefId> {
        match self.kind_of(definition) {
            Some(DefinitionKind::Method { owner, signature: _ }) => Some(owner),
            Some(DefinitionKind::AssociatedType { owner, bounds: _, binding: _ }) => Some(owner),
            _ => None,
        }
    }

    fn member_owner(&self, definition: DefId) -> (owner: Option<DefId>)
        ensures
            owner == self.owner_of(definition),
    {
        match self.kind(definition) {
            Some(DefinitionKind::Method { owner, signature: _ }) => Some(*owner),
            Some(DefinitionKind::AssociatedType { owner, bounds: _, binding: _ }) => Some(*owner),
            _ => None,
        }
    }

    /// The concept that a member of a concept or a conformance speaks of.
    pub open spec fn self_concept_of(self, definition: DefId) -> Option<DefId> {
        match self.owner_of(definition) {
            None => None,
            Some(owner) => match self.kind_of(owner) {
                Some(
                    DefinitionKind::Concept {
                        dyn_capable: _,
                        associated_types: _,
                        requirements: _,
                    },
                ) => Some(owner),
                Some(
                    DefinitionKind::Conformance {
                        generic_params: _,
                        target: _,
                        concept,
                        associated_types: _,
                        methods: _,
                    },
                ) => found(concept.path.concept),
                _ => None,
            },
        }
    }

    fn self_concept_for(&self, definition: DefId) -> (concept: Option<DefId>)
        ensures
            concept == self.self_concept_of(definition),
    {
        match self.member_owner(definition) {
            None => None,
            Some(owner) => match self.kind(owner) {
                Some(
                    DefinitionKind::Concept {
                        dyn_capable: _,
                        associated_types: _,
                        requirements: _,
                    },
                ) => Some(owner),
                Some(
                    DefinitionKind::Conformance {
                        generic_params: _,
                        target: _,
                        concept,
                        associated_types: _,
                        methods: _,
                    },
                ) => find(&concept.path.concept),
                _ => None,
            },
        }
    }

    /// Where a generic parameter is declared.
    pub open spec fn generic_span_of(self, parameter: GenericParamId) -> Span {
        match at(self.generic_params@, parameter.0) {
            Some(found) => found.span,
            None => no_span(),
        }
    }

    pub fn generic_span(&self, parameter: GenericParamId) -> (span: Span)
        ensures
            span == self.generic_span_of(parameter),
    {
        match get(&self.generic_params, parameter.0) {
            Some(found) => found.span,
            None => Span { file: 0, start: 0, end: 0 },
        }
    }

    /// The newest of the definitions with a name.
    pub open spec fn last_named(self, members: Chain<DefId>, name: Seq<char>) -> Option<DefId>
        decreases members,
    {
        match members {
            Chain::Empty => None,
            Chain::Link(link) => if self.has_name(link.item, name) {
                Some(link.item)
            } else {
                self.last_named(link.rest, name)
            },
        }
    }

    fn find_last_named(&self, members: &Chain<DefId>, name: &String) -> (member: Option<DefId>)
        ensures
            member == self.last_named(*members, name@),
        decreases members,
    {
        match members {
            Chain::Empty => None,
            Chain::Link(link) => if self.is_called(link.item, name) {
                Some(link.item)
            } else {
                self.find_last_named(&link.rest, name)
            },
        }
    }
}

/// The generic parameter occurs in the list.
pub open spec fn has_generic(list: Chain<GenericParamId>, parameter: GenericParamId) -> bool
    decreases list,
{
    match list {
        Chain::Empty => false,
        Chain::Link(link) => link.item == parameter || has_generic(link.rest, parameter),
    }
}

fn contains_generic(list: &Chain<GenericParamId>, parameter: GenericParamId) -> (result: bool)
    ensures
        result == has_generic(*list, parameter),
    decreases list,
{
    match list {
        Chain::Empty => false,
        Chain::Link(link) => link.item == parameter || contains_generic(&link.rest, parameter),
    }
}

/// The type, or the error type where there is none.
pub open spec fn or_error(ty: Option<TyId>) -> TyId {
    match ty {
        Some(ty) => ty,
        None => error_ty(),
    }
}

fn type_or_error(ty: Option<TyId>) -> (result: TyId)
    ensures
        result == or_error(ty),
{
    match ty {
        Some(ty) => ty,
        None => TyId(0),
    }
}

impl Names {
    /// The type that `Self` stands for in a member.
    #[verifier::opaque]
    pub open spec fn self_type_for(
        self,
        cx: &Sources,
        definition: DefId,
        generic_params: Chain<GenericParamId>,
    ) -> (Names, Option<TyId>) {
        match cx.program.owner_of(definition) {
            None => (self, None),
            Some(owner) => {
                let context = TypeContext { generic_params, self_ty: None, self_concept: None };
                match cx.program.kind_of(owner) {
                    Some(
                        DefinitionKind::InherentImpl { generic_params: _, target, methods: _ },
                    ) => if cx.program.kind_of(definition) matches Some(
                        DefinitionKind::Method { owner: _, signature: _ },
                    ) {
                        let (n, ty) = self.resolve_type_ref(
                            cx,
                            target,
                            context,
                            RESOLUTION_LIMIT,
                        );
                        (n, Some(ty))
                    } else {
                        (self, None)
                    },
                    Some(
                        DefinitionKind::Conformance {
                            generic_params: _,
                            target,
                            concept: _,
                            associated_types: _,
                            methods: _,
                        },
                    ) => {
                        let (n, ty) = self.resolve_type_ref(
                            cx,
                            target,
                            context,
                            RESOLUTION_LIMIT,
                        );
                        (n, Some(ty))
                    },
                    Some(
                        DefinitionKind::Concept {
                            dyn_capable: _,
                            associated_types: _,
                            requirements: _,
                        },
                    ) => {
                        let (n, ty) = self.intern(TyData::SelfType(owner));
                        (n, Some(ty))
                    },
                    _ => (self, None),
                }
            },
        }
    }

    /// What names stand for in the types that a definition writes.
    #[verifier::opaque]
    pub open spec fn type_context(self, cx: &Sources, definition: DefId) -> (Names, TypeContext) {
        let generic_params = cx.program.generic_ids(definition, OWNER_LIMIT);
        let (n, self_ty) = self.self_type_for(cx, definition, generic_params);
        (
            n,
            TypeContext {
                generic_params,
                self_ty,
                self_concept: cx.program.self_concept_of(definition),
            },
        )
    }

    /// Generic parameters that repeat a name are reported.
    #[verifier::opaque]
    pub open spec fn validate_generic_params(
        self,
        program: &Program,
        parameters: Chain<GenericParamId>,
    ) -> Names
        decreases parameters,
    {
        match parameters {
            Chain::Empty => self,
            Chain::Link(link) => {
                let n = self.validate_generic_params(program, link.rest);
                match at(program.generic_params@, link.item.0) {
                    Some(source) => match generic_named(
                        program,
                        link.rest,
                        source.name@,
                    ) {
                        Some(previous) => n.report(
                            labelled(
                                "DuplicateDeclaration",
                                Message::Name(
                                    "generic parameter `",
                                    source.name,
                                    "` is declared more than once",
                                ),
                                source.span,
                                program.generic_span_of(previous),
                                "first declaration",
                            ),
                        ),
                        None => n,
                    },
                    None => n,
                }
            },
        }
    }

    /// Members that repeat a name are reported.
    #[verifier::opaque]
    pub open spec fn validate_unique_members(
        self,
        program: &Program,
        members: Chain<DefId>,
    ) -> Names
        decreases members,
    {
        match members {
            Chain::Empty => self,
            Chain::Link(link) => {
                let n = self.validate_unique_members(program, link.rest);
                match program.name_of(link.item) {
                    Some(name) => match program.last_named(link.rest, name@) {
                        Some(previous) => n.report(
                            labelled(
                                "DuplicateDeclaration",
                                Message::Name(
                                    "member `",
                                    name,
                                    "` is declared more than once",
                                ),
                                program.span_of(link.item),
                                program.span_of(previous),
                                "first declaration",
                            ),
                        ),
                        None => n,
                    },
                    None => n,
                }
            },
        }
    }

    #[verifier::opaque]
    pub open spec fn resolve_params(
        self,
        cx: &Sources,
        params: Chain<ParamId>,
        context: TypeContext,
    ) -> (Names, Chain<(ParamId, TyId)>)
        decreases params,
    {
        match params {
            Chain::Empty => (self, Chain::Empty),
            Chain::Link(link) => {
                let (n, list) = self.resolve_params(cx, link.rest, context);
                match at(cx.program.params@, link.item.0) {
                    Some(source) => {
                        let (n, ty) = n.resolve_parameter_type(
                            cx,
                            source.ty,
                            context,
                            RESOLUTION_LIMIT,
                        );
                        (n, list.pushed((link.item, ty)))
                    },
                    None => (n, list.pushed((link.item, error_ty()))),
                }
            },
        }
    }

    /// The conformances that written bounds ask of a type.
    #[verifier::opaque]
    pub open spec fn resolve_bounds_of(
        self,
        cx: &Sources,
        self_ty: TyId,
        bounds: Chain<ConceptRef>,
        context: TypeContext,
    ) -> (Names, Chain<Bound>)
        decreases bounds,
    {
        match bounds {
            Chain::Empty => (self, Chain::Empty),
            Chain::Link(link) => {
                let (n, list) = self.resolve_bounds_of(cx, self_ty, link.rest, context);
                match n.resolve_concept_ref(
                    cx,
                    link.item.path,
                    link.item.bindings,
                    context,
                    false,
                    RESOLUTION_LIMIT,
                ) {
                    (n, Some(concept)) => (n, list.pushed(Bound { self_ty, concept })),
                    (n, None) => (n, list),
                }
            },
        }
    }

    /// The bounds of generic parameters: all of them, and those of the
    /// parameters that a call settles.
    #[verifier::opaque]
    pub open spec fn resolve_generic_bounds(
        self,
        cx: &Sources,
        parameters: Chain<GenericParamId>,
        call_generic_params: Chain<GenericParamId>,
        context: TypeContext,
    ) -> (Names, Chain<Bound>, Chain<Bound>)
        decreases parameters,
    {
        match parameters {
            Chain::Empty => (self, Chain::Empty, Chain::Empty),
            Chain::Link(link) => {
                let (n, bounds, call_bounds) = self.resolve_generic_bounds(
                    cx,
                    link.rest,
                    call_generic_params,
                    context,
                );
                let (n, self_ty) = n.intern(TyData::Param(link.item));
                match at(cx.program.generic_params@, link.item.0) {
                    Some(source) => {
                        let (n, own) = n.resolve_bounds_of(cx, self_ty, source.bounds, context);
                        (
                            n,
                            bounds.joined(own),
                            if has_generic(call_generic_params, link.item) {
                                call_bounds.joined(own)
                            } else {
                                call_bounds
                            },
                        )
                    },
                    None => (n, bounds, call_bounds),
                }
            },
        }
    }

    #[verifier::opaque]
    pub open spec fn resolve_return(
        self,
        cx: &Sources,
        return_ty: Option<TypeRefId>,
        context: TypeContext,
    ) -> (Names, TyId) {
        match return_ty {
            Some(reference) => self.resolve_type_ref(cx, reference, context, RESOLUTION_LIMIT),
            None => (self, builtin_ty(BuiltinType::Unit)),
        }
    }

    /// The signature of a callable.
    #[verifier::opaque]
    pub open spec fn resolve_callable(
        self,
        cx: &Sources,
        owner: DefId,
        source: CallableSource,
        is_async: bool,
        context: TypeContext,
    ) -> (Names, CallableSignature) {
        let n = self.validate_generic_params(cx.program, source.generic_params);
        let (n, params) = n.resolve_params(cx, source.params, context);
        let (n, return_ty) = n.resolve_return(cx, source.return_ty, context);
        let generic_params = cx.program.generic_ids(owner, OWNER_LIMIT);
        let (n, bounds, call_bounds) = n.resolve_generic_bounds(
            cx,
            generic_params,
            source.generic_params,
            context,
        );
        (
            n,
            CallableSignature {
                is_async,
                generic_params,
                call_generic_params: source.generic_params,
                receiver: source.receiver,
                params,
                return_ty,
                bounds,
                call_bounds,
            },
        )
    }

    #[verifier::opaque]
    pub open spec fn validate_test_signature(
        self,
        program: &Program,
        definition: DefId,
        signature: CallableSignature,
    ) -> Names {
        let unit = builtin_ty(BuiltinType::Unit);
        let valid_return = signature.return_ty == unit || match ty_data(
            self.types,
            signature.return_ty,
        ) {
            TyData::Result { ok, error: _ } => ok == unit,
            _ => false,
        };
        if !(signature.generic_params is Empty) || signature.receiver is Some
            || !(signature.params is Empty) || !valid_return {
            self.text_error(
                "InvalidTestSignature",
                "test fn must have no parameters or generics and return Unit or Result[Unit, E]",
                program.span_of(definition),
            )
        } else {
            self
        }
    }
}

/// The signature of a definition that is known before any type is resolved.
pub open spec fn shape_of(kind: DefinitionKind) -> Option<Signature> {
    match kind {
        DefinitionKind::RefinedType { base: _, predicate: _ } => Some(
            Signature::Type { generic_params: Chain::Empty },
        ),
        DefinitionKind::Record { generic_params, fields: _, invariant_body: _ } => Some(
            Signature::Type { generic_params },
        ),
        DefinitionKind::Enum { generic_params, variants: _ } => Some(
            Signature::Type { generic_params },
        ),
        DefinitionKind::Concept { dyn_capable: _, associated_types: _, requirements: _ } => Some(
            Signature::Concept,
        ),
        DefinitionKind::InherentImpl { generic_params: _, target: _, methods: _ } => Some(
            Signature::Impl,
        ),
        DefinitionKind::Conformance {
            generic_params: _,
            target: _,
            concept: _,
            associated_types: _,
            methods: _,
        } => Some(Signature::Impl),
        _ => None,
    }
}

fn find_shape(kind: &DefinitionKind) -> (signature: Option<Signature>)
    ensures
        signature == shape_of(*kind),
{
    match kind {
        DefinitionKind::RefinedType { base: _, predicate: _ } => Some(
            Signature::Type { generic_params: Chain::new() },
        ),
        DefinitionKind::Record { generic_params, fields: _, invariant_body: _ } => Some(
            Signature::Type { generic_params: generic_params.clone() },
        ),
        DefinitionKind::Enum { generic_params, variants: _ } => Some(
            Signature::Type { generic_params: generic_params.clone() },
        ),
        DefinitionKind::Concept { dyn_capable: _, associated_types: _, requirements: _ } => Some(
            Signature::Concept,
        ),
        DefinitionKind::InherentImpl { generic_params: _, target: _, methods: _ } => Some(
            Signature::Impl,
        ),
        DefinitionKind::Conformance {
            generic_params: _,
            target: _,
            concept: _,
            associated_types: _,
            methods: _,
        } => Some(Signature::Impl),
        _ => None,
    }
}

/// A type that constants may have.
pub open spec fn is_constant_type(data: TyData) -> bool {
    match data {
        TyData::Builtin(BuiltinType::Bool) => true,
        TyData::Builtin(BuiltinType::Int) => true,
        TyData::Builtin(BuiltinType::Float) => true,
        TyData::Builtin(BuiltinType::Text) => true,
        _ => false,
    }
}

fn check_constant_type(data: &TyData) -> (result: bool)
    ensures
        result == is_constant_type(*data),
{
    match data {
        TyData::Builtin(BuiltinType::Bool) => true,
        TyData::Builtin(BuiltinType::Int) => true,
        TyData::Builtin(BuiltinType::Float) => true,
        TyData::Builtin(BuiltinType::Text) => true,
        _ => false,
    }
}

impl Survey {
    /// The shapes of the first `count` definitions are known.
    pub open spec fn shaped(self, cx: &Sources, count: nat) -> Survey
        decreases count,
    {
        if count == 0 {
            self
        } else {
            let s = self.shaped(cx, (count - 1) as nat);
            match shape_of(cx.program.definitions@[count - 1].kind) {
                Some(signature) => s.set_signature(DefId((count - 1) as u32), signature),
                None => s,
            }
        }
    }

    /// The signatures of the first `count` definitions are known.
    pub open spec fn declared(self, cx: &Sources, count: nat) -> Survey
        decreases count,
    {
        if count == 0 {
            self
        } else {
            self.declared(cx, (count - 1) as nat).declare(
                cx,
                DefId((count - 1) as u32),
                cx.program.definitions@[count - 1].kind,
            )
        }
    }

    /// The signatures of all definitions are known. Shapes come first, so that
    /// the order of declarations does not matter.
    pub open spec fn collect_signatures(self, cx: &Sources) -> Survey {
        let count = cx.program.definitions@.len();
        self.shaped(cx, count).declared(cx, count)
    }

    /// The signature of a definition is found out.
    #[verifier::opaque]
    pub open spec fn declare(
        self,
        cx: &Sources,
        definition: DefId,
        kind: DefinitionKind,
    ) -> Survey {
        let (n, context) = self.names.type_context(cx, definition);
        let s = self.with_names(n);
        match kind {
            DefinitionKind::Constant { ty, value: _ } => s.declare_constant(
                cx,
                definition,
                ty,
                context,
            ),
            DefinitionKind::RefinedType { base, predicate: _ } => s.with_names(
                n.resolve_type_ref(cx, base, context, RESOLUTION_LIMIT).0,
            ),
            DefinitionKind::Record { generic_params, fields: _, invariant_body: _ } =>
                s.with_names(n.validate_generic_params(cx.program, generic_params)),
            DefinitionKind::Field { owner, ty } => {
                let (n, ty) = n.resolve_type_ref(cx, ty, context, RESOLUTION_LIMIT);
                s.with_names(n).set_signature(definition, Signature::Field { owner, ty })
            },
            DefinitionKind::Enum { generic_params, variants: _ } => s.with_names(
                n.validate_generic_params(cx.program, generic_params),
            ),
            DefinitionKind::Variant { owner, payload } => {
                let (n, payload) = n.resolve_list(cx, payload, context, RESOLUTION_LIMIT);
                s.with_names(n).set_signature(definition, Signature::Variant { owner, payload })
            },
            DefinitionKind::Function { signature, is_async } => {
                let (n, resolved) = n.resolve_callable(
                    cx,
                    definition,
                    signature,
                    is_async,
                    context,
                );
                s.with_names(n).set_signature(definition, Signature::Callable(resolved))
            },
            DefinitionKind::Test { signature, is_async } => {
                let (n, resolved) = n.resolve_callable(
                    cx,
                    definition,
                    signature,
                    is_async,
                    context,
                );
                s.with_names(
                    n.validate_test_signature(cx.program, definition, resolved),
                ).set_signature(definition, Signature::Callable(resolved))
            },
            DefinitionKind::InherentImpl { generic_params, target, methods: _ } =>
                s.declare_inherent(cx, definition, generic_params, target, context),
            DefinitionKind::Concept { dyn_capable: _, associated_types, requirements } =>
                s.with_names(
                    n.validate_unique_members(
                        cx.program,
                        associated_types.joined(requirements),
                    ),
                ),
            DefinitionKind::AssociatedType { owner, bounds, binding } =>
                s.declare_associated(cx, definition, owner, bounds, binding, context),
            DefinitionKind::Conformance {
                generic_params,
                target,
                concept,
                associated_types,
                methods,
            } => {
                let n = n.validate_generic_params(cx.program, generic_params);
                let (n, _) = n.resolve_type_ref(cx, target, context, RESOLUTION_LIMIT);
                let (n, _) = n.resolve_concept_ref(
                    cx,
                    concept.path,
                    concept.bindings,
                    context,
                    false,
                    RESOLUTION_LIMIT,
                );
                s.with_names(
                    n.validate_unique_members(cx.program, associated_types.joined(methods)),
                )
            },
            DefinitionKind::Method { owner: _, signature } => {
                let (n, resolved) = n.resolve_callable(
                    cx,
                    definition,
                    signature,
                    false,
                    context,
                );
                s.with_names(n).set_signature(definition, Signature::Callable(resolved))
            },
            DefinitionKind::Error => s,
        }
    }

    #[verifier::opaque]
    pub open spec fn declare_constant(
        self,
        cx: &Sources,
        definition: DefId,
        ty: TypeRefId,
        context: TypeContext,
    ) -> Survey {
        let (n, resolved) = self.names.resolve_type_ref(cx, ty, context, RESOLUTION_LIMIT);
        let n = if is_constant_type(ty_data(n.types, resolved)) {
            n
        } else {
            n.text_error(
                "InvalidConstantType",
                "a constant type must be Bool, Int, Float, or Text",
                cx.program.type_span_of(ty),
            )
        };
        self.with_names(n).set_signature(definition, Signature::Constant { ty: resolved })
    }

    #[verifier::opaque]
    pub open spec fn declare_inherent(
        self,
        cx: &Sources,
        definition: DefId,
        generic_params: Chain<GenericParamId>,
        target: TypeRefId,
        context: TypeContext,
    ) -> Survey {
        let n = self.names.validate_generic_params(cx.program, generic_params);
        let (n, ty) = n.resolve_type_ref(cx, target, context, RESOLUTION_LIMIT);
        let owned = match ty_data(n.types, ty) {
            TyData::Nominal { definition: owner, arguments: _ } => cx.program.module_of(owner)
                == cx.program.module_of(definition),
            _ => false,
        };
        self.with_names(
            if owned {
                n
            } else {
                n.text_error(
                    "ForeignInherentImpl",
                    "inherent impl must be declared in its target type's module",
                    cx.program.span_of(definition),
                )
            },
        )
    }

    #[verifier::opaque]
    pub open spec fn declare_associated(
        self,
        cx: &Sources,
        definition: DefId,
        owner: DefId,
        bounds: Chain<ConceptRef>,
        binding: Option<TypeRefId>,
        context: TypeContext,
    ) -> Survey {
        let (n, self_ty) = match cx.program.kind_of(owner) {
            Some(
                DefinitionKind::Concept { dyn_capable: _, associated_types: _, requirements: _ },
            ) => self.names.intern(
                TyData::Projection {
                    self_ty: or_error(context.self_ty),
                    concept: owner,
                    associated_type: definition,
                },
            ),
            _ => (self.names, or_error(context.self_ty)),
        };
        let (n, resolved) = n.resolve_bounds_of(cx, self_ty, bounds, context);
        let n = match binding {
            Some(reference) => n.resolve_type_ref(cx, reference, context, RESOLUTION_LIMIT).0,
            None => n,
        };
        self.with_names(n).set_signature(
            definition,
            Signature::AssociatedType { owner, bounds: resolved },
        )
    }
}

impl TypeResolver {
    fn self_type_for(
        &mut self,
        cx: &Sources,
        definition: DefId,
        generic_params: &Chain<GenericParamId>,
    ) -> (ty: Option<TyId>)
        requires
            old(self).wf(),
        ensures
            adds_to(old(self)@.diagnostics, final(self)@.diagnostics),
            final(self).wf(),
            later(old(self)@.types, final(self)@.types),
            (final(self)@, ty) == old(self)@.self_type_for(cx, definition, *generic_params),
    {
        proof {
            reveal(Names::self_type_for);
        }
        match cx.program.member_owner(definition) {
            None => None,
            Some(owner) => {
                let context = TypeContext {
                    generic_params: generic_params.clone(),
                    self_ty: None,
                    self_concept: None,
                };
                match cx.program.kind(owner) {
                    Some(
                        DefinitionKind::InherentImpl { generic_params: _, target, methods: _ },
                    ) => match cx.program.kind(definition) {
                        Some(DefinitionKind::Method { owner: _, signature: _ }) => Some(
                            self.resolve_type_ref(cx, *target, &context, RESOLUTION_LIMIT),
                        ),
                        _ => None,
                    },
                    Some(
                        DefinitionKind::Conformance {
                            generic_params: _,
                            target,
                            concept: _,
                            associated_types: _,
                            methods: _,
                        },
                    ) => Some(self.resolve_type_ref(cx, *target, &context, RESOLUTION_LIMIT)),
                    Some(
                        DefinitionKind::Concept {
                            dyn_capable: _,
                            associated_types: _,
                            requirements: _,
                        },
                    ) => Some(self.intern(TyData::SelfType(owner))),
                    _ => None,
                }
            },
        }
    }

    pub fn type_context(&mut self, cx: &Sources, definition: DefId) -> (context: TypeContext)
        requires
            old(self).wf(),
        ensures
            adds_to(old(self)@.diagnostics, final(self)@.diagnostics),
            final(self).wf(),
            later(old(self)@.types, final(self)@.types),
            (final(self)@, context) == old(self)@.type_context(cx, definition),
    {
        proof {
            reveal(Names::type_context);
        }
        let generic_params = cx.program.collect_generic_ids(definition, OWNER_LIMIT);
        let self_ty = self.self_type_for(cx, definition, &generic_params);
        let self_concept = cx.program.self_concept_for(definition);
        TypeContext { generic_params, self_ty, self_concept }
    }

    fn validate_generic_params(&mut self, program: &Program, parameters: &Chain<GenericParamId>)
        ensures
            adds_to(old(self)@.diagnostics, final(self)@.diagnostics),
            final(self)@.types == old(self)@.types,
            final(self)@ == old(self)@.validate_generic_params(program, *parameters),
        decreases parameters,
    {
        proof {
            reveal(Names::validate_generic_params);
        }
        match parameters {
            Chain::Empty => {},
            Chain::Link(link) => {
                self.validate_generic_params(program, &link.rest);
                match get(&program.generic_params, link.item.0) {
                    Some(source) => match find_generic(
                        program,
                        &link.rest,
                        &source.name,
                    ) {
                        Some(previous) => {
                            let diagnostic = Diagnostic::error(
                                "DuplicateDeclaration",
                                Message::Name(
                                    "generic parameter `",
                                    source.name.clone(),
                                    "` is declared more than once",
                                ),
                                source.span,
                            ).with_label(program.generic_span(previous), "first declaration");
                            self.report(diagnostic);
                        },
                        None => {},
                    },
                    None => {},
                }
            },
        }
    }

    fn validate_unique_members(&mut self, program: &Program, members: &Chain<DefId>)
        ensures
            adds_to(old(self)@.diagnostics, final(self)@.diagnostics),
            final(self)@.types == old(self)@.types,
            final(self)@ == old(self)@.validate_unique_members(program, *members),
        decreases members,
    {
        proof {
            reveal(Names::validate_unique_members);
        }
        match members {
            Chain::Empty => {},
            Chain::Link(link) => {
                self.validate_unique_members(program, &link.rest);
                match program.definition_name(link.item) {
                    Some(name) => match program.find_last_named(&link.rest, name) {
                        Some(previous) => {
                            let diagnostic = Diagnostic::error(
                                "DuplicateDeclaration",
                                Message::Name(
                                    "member `",
                                    name.clone(),
                                    "` is declared more than once",
                                ),
                                program.definition_span(link.item),
                            ).with_label(program.definition_span(previous), "first declaration");
                            self.report(diagnostic);
                        },
                        None => {},
                    },
                    None => {},
                }
            },
        }
    }

    fn resolve_params(
        &mut self,
        cx: &Sources,
        params: &Chain<ParamId>,
        context: &TypeContext,
    ) -> (list:
        Chain<(ParamId, TyId)>)
        requires
            old(self).wf(),
        ensures
            adds_to(old(self)@.diagnostics, final(self)@.diagnostics),
            final(self).wf(),
            later(old(self)@.types, final(self)@.types),
            (final(self)@, list) == old(self)@.resolve_params(cx, *params, *context),
        decreases params,
    {
        proof {
            reveal(Names::resolve_params);
        }
        match params {
            Chain::Empty => Chain::new(),
            Chain::Link(link) => {
                let list = self.resolve_params(cx, &link.rest, context);
                match get(&cx.program.params, link.item.0) {
                    Some(source) => {
                        let ty = self.resolve_parameter_type(
                            cx,
                            source.ty,
                            context,
                            RESOLUTION_LIMIT,
                        );
                        list.with((link.item, ty))
                    },
                    None => list.with((link.item, TyId(0))),
                }
            },
        }
    }

    pub fn resolve_bounds_of(
        &mut self,
        cx: &Sources,
        self_ty: TyId,
        bounds: &Chain<ConceptRef>,
        context: &TypeContext,
    ) -> (list: Chain<Bound>)
        requires
            old(self).wf(),
        ensures
            adds_to(old(self)@.diagnostics, final(self)@.diagnostics),
            final(self).wf(),
            later(old(self)@.types, final(self)@.types),
            (final(self)@, list) == old(self)@.resolve_bounds_of(cx, self_ty, *bounds, *context),
        decreases bounds,
    {
        proof {
            reveal(Names::resolve_bounds_of);
        }
        match bounds {
            Chain::Empty => Chain::new(),
            Chain::Link(link) => {
                let list = self.resolve_bounds_of(cx, self_ty, &link.rest, context);
                match self.resolve_concept_ref(
                    cx,
                    &link.item.path,
                    &link.item.bindings,
                    context,
                    false,
                    RESOLUTION_LIMIT,
                ) {
                    Some(concept) => list.with(Bound { self_ty, concept }),
                    None => list,
                }
            },
        }
    }

    fn resolve_generic_bounds(
        &mut self,
        cx: &Sources,
        parameters: &Chain<GenericParamId>,
        call_generic_params: &Chain<GenericParamId>,
        context: &TypeContext,
    ) -> (result: (Chain<Bound>, Chain<Bound>))
        requires
            old(self).wf(),
        ensures
            adds_to(old(self)@.diagnostics, final(self)@.diagnostics),
            final(self).wf(),
            later(old(self)@.types, final(self)@.types),
            (final(self)@, result.0, result.1) == old(self)@.resolve_generic_bounds(
                cx,
                *parameters,
                *call_generic_params,
                *context,
            ),
        decreases parameters,
    {
        proof {
            reveal(Names::resolve_generic_bounds);
        }
        match parameters {
            Chain::Empty => (Chain::new(), Chain::new()),
            Chain::Link(link) => {
                let (bounds, call_bounds) = self.resolve_generic_bounds(
                    cx,
                    &link.rest,
                    call_generic_params,
                    context,
                );
                let self_ty = self.intern(TyData::Param(link.item));
                match get(&cx.program.generic_params, link.item.0) {
                    Some(source) => {
                        let own = self.resolve_bounds_of(cx, self_ty, &source.bounds, context);
                        let called = if contains_generic(call_generic_params, link.item) {
                            call_bounds.join(&own)
                        } else {
                            call_bounds
                        };
                        (bounds.join(&own), called)
                    },
                    None => (bounds, call_bounds),
                }
            },
        }
    }

    fn resolve_return(
        &mut self,
        cx: &Sources,
        return_ty: Option<TypeRefId>,
        context: &TypeContext,
    ) -> (ty: TyId)
        requires
            old(self).wf(),
        ensures
            adds_to(old(self)@.diagnostics, final(self)@.diagnostics),
            final(self).wf(),
            later(old(self)@.types, final(self)@.types),
            (final(self)@, ty) == old(self)@.resolve_return(cx, return_ty, *context),
    {
        proof {
            reveal(Names::resolve_return);
        }
        match return_ty {
            Some(reference) => self.resolve_type_ref(cx, reference, context, RESOLUTION_LIMIT),
            None => self.types.builtin(BuiltinType::Unit),
        }
    }

    fn resolve_callable(
        &mut self,
        cx: &Sources,
        owner: DefId,
        source: &CallableSource,
        is_async: bool,
        context: &TypeContext,
    ) -> (signature: CallableSignature)
        requires
            old(self).wf(),
        ensures
            adds_to(old(self)@.diagnostics, final(self)@.diagnostics),
            final(self).wf(),
            later(old(self)@.types, final(self)@.types),
            (final(self)@, signature) == old(self)@.resolve_callable(
                cx,
                owner,
                *source,
                is_async,
                *context,
            ),
    {
        proof {
            reveal(Names::resolve_callable);
        }
        self.validate_generic_params(cx.program, &source.generic_params);
        let params = self.resolve_params(cx, &source.params, context);
        let return_ty = self.resolve_return(cx, source.return_ty, context);
        let generic_params = cx.program.collect_generic_ids(owner, OWNER_LIMIT);
        let (bounds, call_bounds) = self.resolve_generic_bounds(
            cx,
            &generic_params,
            &source.generic_params,
            context,
        );
        CallableSignature {
            is_async,
            generic_params,
            call_generic_params: source.generic_params.clone(),
            receiver: source.receiver,
            params,
            return_ty,
            bounds,
            call_bounds,
        }
    }

    fn validate_test_signature(
        &mut self,
        program: &Program,
        definition: DefId,
        signature: &CallableSignature,
    )
        requires
            old(self).wf(),
        ensures
            adds_to(old(self)@.diagnostics, final(self)@.diagnostics),
            final(self)@.types == old(self)@.types,
            final(self)@ == old(self)@.validate_test_signature(program, definition, *signature),
    {
        proof {
            reveal(Names::validate_test_signature);
        }
        let unit = self.types.builtin(BuiltinType::Unit);
        let valid_return = signature.return_ty == unit || match self.types.data(
            signature.return_ty,
        ) {
            TyData::Result { ok, error: _ } => *ok == unit,
            _ => false,
        };
        if !signature.generic_params.is_empty() || signature.receiver.is_some()
            || !signature.params.is_empty() || !valid_return {
            self.text_error(
                "InvalidTestSignature",
                "test fn must have no parameters or generics and return Unit or Result[Unit, E]",
                program.definition_span(definition),
            );
        }
    }
}

impl Analyzer {
    /// Finds out the signatures of all definitions.
    pub fn collect_signatures(&mut self, cx: &Sources)
        requires
            old(self).wf(),
            cx.program.fits(),
        ensures
            adds_to(old(self)@.names.diagnostics, final(self)@.names.diagnostics),
            final(self).wf(),
            later(old(self)@.names.types, final(self)@.names.types),
            final(self)@ == old(self)@.collect_signatures(cx),
    {
        let ghost begun = self@;
        let count: usize = cx.program.definitions.len();
        let mut i: usize = 0;
        while i < count
            invariant
                adds_to(old(self)@.names.diagnostics, self@.names.diagnostics),
                i <= count,
                count == cx.program.definitions@.len(),
                cx.program.fits(),
                self.wf(),
                later(old(self)@.names.types, self@.names.types),
                self@ == begun.shaped(cx, i as nat),
            decreases count - i,
        {
            match find_shape(&cx.program.definitions[i].kind) {
                Some(signature) => {
                    self.set_signature(DefId(i as u32), signature);
                },
                None => {},
            }
            i = i + 1;
        }
        let ghost shapes = self@;
        let mut j: usize = 0;
        while j < count
            invariant
                adds_to(old(self)@.names.diagnostics, self@.names.diagnostics),
                j <= count,
                count == cx.program.definitions@.len(),
                cx.program.fits(),
                self.wf(),
                later(old(self)@.names.types, self@.names.types),
                self@ == shapes.declared(cx, j as nat),
            decreases count - j,
        {
            self.declare(cx, DefId(j as u32), &cx.program.definitions[j].kind);
            j = j + 1;
        }
    }

    fn declare(&mut self, cx: &Sources, definition: DefId, kind: &DefinitionKind)
        requires
            old(self).wf(),
        ensures
            adds_to(old(self)@.names.diagnostics, final(self)@.names.diagnostics),
            final(self).wf(),
            later(old(self)@.names.types, final(self)@.names.types),
            final(self)@ == old(self)@.declare(cx, definition, *kind),
    {
        proof {
            reveal(Survey::declare);
        }
        let context = self.names.type_context(cx, definition);
        match kind {
            DefinitionKind::Constant { ty, value: _ } => {
                self.declare_constant(cx, definition, *ty, &context);
            },
            DefinitionKind::RefinedType { base, predicate: _ } => {
                self.names.resolve_type_ref(cx, *base, &context, RESOLUTION_LIMIT);
            },
            DefinitionKind::Record { generic_params, fields: _, invariant_body: _ } => {
                self.names.validate_generic_params(cx.program, generic_params);
            },
            DefinitionKind::Field { owner, ty } => {
                let resolved = self.names.resolve_type_ref(cx, *ty, &context, RESOLUTION_LIMIT);
                self.set_signature(
                    definition,
                    Signature::Field { owner: *owner, ty: resolved },
                );
            },
            DefinitionKind::Enum { generic_params, variants: _ } => {
                self.names.validate_generic_params(cx.program, generic_params);
            },
            DefinitionKind::Variant { owner, payload } => {
                let resolved = self.names.resolve_list(cx, payload, &context, RESOLUTION_LIMIT);
                self.set_signature(
                    definition,
                    Signature::Variant { owner: *owner, payload: resolved },
                );
            },
            DefinitionKind::Function { signature, is_async } => {
                let resolved = self.names.resolve_callable(
                    cx,
                    definition,
                    signature,
                    *is_async,
                    &context,
                );
                self.set_signature(definition, Signature::Callable(resolved));
            },
            DefinitionKind::Test { signature, is_async } => {
                let resolved = self.names.resolve_callable(
                    cx,
                    definition,
                    signature,
                    *is_async,
                    &context,
                );
                self.names.validate_test_signature(cx.program, definition, &resolved);
                self.set_signature(definition, Signature::Callable(resolved));
            },
            DefinitionKind::InherentImpl { generic_params, target, methods: _ } => {
                self.declare_inherent(cx, definition, generic_params, *target, &context);
            },
            DefinitionKind::Concept { dyn_capable: _, associated_types, requirements } => {
                let members = associated_types.join(requirements);
                self.names.validate_unique_members(cx.program, &members);
            },
            DefinitionKind::AssociatedType { owner, bounds, binding } => {
                self.declare_associated(cx, definition, *owner, bounds, *binding, &context);
            },
            DefinitionKind::Conformance {
                generic_params,
                target,
                concept,
                associated_types,
                methods,
            } => {
                self.names.validate_generic_params(cx.program, generic_params);
                self.names.resolve_type_ref(cx, *target, &context, RESOLUTION_LIMIT);
                self.names.resolve_concept_ref(
                    cx,
                    &concept.path,
                    &concept.bindings,
                    &context,
                    false,
                    RESOLUTION_LIMIT,
                );
                let members = associated_types.join(methods);
                self.names.validate_unique_members(cx.program, &members);
            },
            DefinitionKind::Method { owner: _, signature } => {
                let resolved = self.names.resolve_callable(
                    cx,
                    definition,
                    signature,
                    false,
                    &context,
                );
                self.set_signature(definition, Signature::Callable(resolved));
            },
            DefinitionKind::Error => {},
        }
    }

    fn declare_constant(
        &mut self,
        cx: &Sources,
        definition: DefId,
        ty: TypeRefId,
        context: &TypeContext,
    )
        requires
            old(self).wf(),
        ensures
            adds_to(old(self)@.names.diagnostics, final(self)@.names.diagnostics),
            final(self).wf(),
            later(old(self)@.names.types, final(self)@.names.types),
            final(self)@ == old(self)@.declare_constant(cx, definition, ty, *context),
    {
        proof {
            reveal(Survey::declare_constant);
        }
        let resolved = self.names.resolve_type_ref(cx, ty, context, RESOLUTION_LIMIT);
        if !check_constant_type(self.names.types.data(resolved)) {
            self.names.text_error(
                "InvalidConstantType",
                "a constant type must be Bool, Int, Float, or Text",
                cx.program.type_span(ty),
            );
        }
        self.set_signature(definition, Signature::Constant { ty: resolved });
    }

    fn declare_inherent(
        &mut self,
        cx: &Sources,
        definition: DefId,
        generic_params: &Chain<GenericParamId>,
        target: TypeRefId,
        context: &TypeContext,
    )
        requires
            old(self).wf(),
        ensures
            adds_to(old(self)@.names.diagnostics, final(self)@.names.diagnostics),
            final(self).wf(),
            later(old(self)@.names.types, final(self)@.names.types),
            final(self)@ == old(self)@.declare_inherent(
                cx,
                definition,
                *generic_params,
                target,
                *context,
            ),
    {
        proof {
            reveal(Survey::declare_inherent);
        }
        self.names.validate_generic_params(cx.program, generic_params);
        let ty = self.names.resolve_type_ref(cx, target, context, RESOLUTION_LIMIT);
        let owned = match self.names.types.data(ty) {
            TyData::Nominal { definition: owner, arguments: _ } => cx.program.module(*owner)
                == cx.program.module(definition),
            _ => false,
        };
        if !owned {
            self.names.text_error(
                "ForeignInherentImpl",
                "inherent impl must be declared in its target type's module",
                cx.program.definition_span(definition),
            );
        }
    }

    fn declare_associated(
        &mut self,
        cx: &Sources,
        definition: DefId,
        owner: DefId,
        bounds: &Chain<ConceptRef>,
        binding: Option<TypeRefId>,
        context: &TypeContext,
    )
        requires
            old(self).wf(),
        ensures
            adds_to(old(self)@.names.diagnostics, final(self)@.names.diagnostics),
            final(self).wf(),
            later(old(self)@.names.types, final(self)@.names.types),
            final(self)@ == old(self)@.declare_associated(
                cx,
                definition,
                owner,
                *bounds,
                binding,
                *context,
            ),
    {
        proof {
            reveal(Survey::declare_associated);
        }
        let outer = type_or_error(context.self_ty);
        let self_ty = match cx.program.kind(owner) {
            Some(
                DefinitionKind::Concept { dyn_capable: _, associated_types: _, requirements: _ },
            ) => self.names.intern(
                TyData::Projection {
                    self_ty: outer,
                    concept: owner,
                    associated_type: definition,
                },
            ),
            _ => outer,
        };
        let resolved = self.names.resolve_bounds_of(cx, self_ty, bounds, context);
        match binding {
            Some(reference) => {
                self.names.resolve_type_ref(cx, reference, context, RESOLUTION_LIMIT);
            },
            None => {},
        }
        self.set_signature(definition, Signature::AssociatedType { owner, bounds: resolved });
    }
}

} // verus!
