//! What written types and concepts stand for.

use vstd::prelude::*;

use crate::chain::Chain;
#[allow(unused_imports)]
use crate::diagnostics::{adds_to, lemma_adds_nothing, lemma_adds_one, lemma_adds_through};
use crate::diagnostics::{Diagnostic, Message};
#[allow(unused_imports)]
use crate::diagnostics::plain;
#[allow(unused_imports)]
use crate::growth::{later, lemma_later_itself, lemma_later_through};
use crate::hir::{
    get, text_is, BindingRef, ConceptRef, DefinitionKind, Path, Program, ReceiverKind, Resolved,
    TypeArgumentRef, TypeRefKind,
};
#[allow(unused_imports)]
use crate::hir::{at, no_span};
use crate::ids::{DefId, GenericParamId, Span, TyId, TypeRefId};
use crate::lookup::canonical_prelude_type;
#[allow(unused_imports)]
use crate::lookup::prelude_type;
use crate::semantics::CanonicalStdItems;
use crate::table::{contains_id, insert_id, Table};
#[allow(unused_imports)]
use crate::table::{has_id, id_inserted};
use crate::ty::{AssociatedTypeBinding, ConceptInstance, Mutability, TyData, TyInterner};
#[allow(unused_imports)]
use crate::ty::{builtin_ty, error_ty, interned, interned_ty, types_wf};
use crate::unify::{builtin_type, find_first_binding};
#[allow(unused_imports)]
use crate::unify::{builtin_named, first_binding};

verus! {

broadcast use {
    lemma_adds_nothing,
    lemma_adds_one,
    lemma_adds_through,
    lemma_later_itself,
    lemma_later_through,
};

/// How deep written types are followed.
pub const RESOLUTION_LIMIT: u32 = u32::MAX;

/// What names stand for where a type is written.
pub struct TypeContext {
    /// The generic parameters in reach; the newest of a name counts.
    pub generic_params: Chain<GenericParamId>,
    pub self_ty: Option<TyId>,
    pub self_concept: Option<DefId>,
}

impl Clone for TypeContext {
    fn clone(&self) -> (copy: Self)
        ensures
            copy == *self,
    {
        TypeContext {
            generic_params: self.generic_params.clone(),
            self_ty: self.self_ty,
            self_concept: self.self_concept,
        }
    }
}

/// The program, with the standard items that the language knows.
pub struct Sources<'a> {
    pub program: &'a Program,
    pub items: CanonicalStdItems,
}

/// The types, what written types stand for, and what was reported of them.
pub struct Names {
    pub types: Seq<TyData>,
    pub type_refs: Table<TyId>,
    pub diagnostics: Chain<Diagnostic>,
}

/// Finds out what written types stand for.
pub struct TypeResolver {
    pub types: TyInterner,
    pub type_refs: Table<TyId>,
    pub diagnostics: Chain<Diagnostic>,
}

impl View for TypeResolver {
    type V = Names;

    open spec fn view(&self) -> Names {
        Names {
            types: self.types@,
            type_refs: self.type_refs,
            diagnostics: self.diagnostics,
        }
    }
}

/// A type constructor that every module can name.
#[derive(Clone, Copy, Debug, PartialEq, Eq, Structural)]
pub enum Constructor {
    Optional,
    Fallible,
    List,
    TextMap,
    Task,
    TaskOutcome,
}

pub open spec fn constructor_of(path: Path) -> Option<Constructor> {
    match path.single() {
        Some(segment) => if segment.name@ == "Option"@ {
            Some(Constructor::Optional)
        } else if segment.name@ == "Result"@ {
            Some(Constructor::Fallible)
        } else if segment.name@ == "List"@ {
            Some(Constructor::List)
        } else if segment.name@ == "TextMap"@ {
            Some(Constructor::TextMap)
        } else if segment.name@ == "Task"@ {
            Some(Constructor::Task)
        } else if segment.name@ == "TaskOutcome"@ {
            Some(Constructor::TaskOutcome)
        } else {
            None
        },
        None => None,
    }
}

fn find_constructor(path: &Path) -> (constructor: Option<Constructor>)
    ensures
        constructor == constructor_of(*path),
{
    match path.only_segment() {
        Some(segment) => if text_is(&segment.name, "Option") {
            Some(Constructor::Optional)
        } else if text_is(&segment.name, "Result") {
            Some(Constructor::Fallible)
        } else if text_is(&segment.name, "List") {
            Some(Constructor::List)
        } else if text_is(&segment.name, "TextMap") {
            Some(Constructor::TextMap)
        } else if text_is(&segment.name, "Task") {
            Some(Constructor::Task)
        } else if text_is(&segment.name, "TaskOutcome") {
            Some(Constructor::TaskOutcome)
        } else {
            None
        },
        None => None,
    }
}

/// The type that a constructor makes of its arguments; nothing if there are
/// not as many as it takes.
pub open spec fn constructed(constructor: Constructor, arguments: Chain<TyId>) -> Option<TyData> {
    match arguments {
        Chain::Empty => None,
        Chain::Link(last) => match last.rest {
            Chain::Empty => match constructor {
                Constructor::Optional => Some(TyData::Option(last.item)),
                Constructor::Fallible => None,
                Constructor::List => Some(TyData::List(last.item)),
                Constructor::TextMap => Some(TyData::TextMap(last.item)),
                Constructor::Task => Some(TyData::Task(last.item)),
                Constructor::TaskOutcome => Some(TyData::TaskOutcome(last.item)),
            },
            Chain::Link(first) => if first.rest is Empty && constructor == Constructor::Fallible {
                Some(TyData::Result { ok: first.item, error: last.item })
            } else {
                None
            },
        },
    }
}

fn construct(constructor: Constructor, arguments: &Chain<TyId>) -> (data: Option<TyData>)
    ensures
        data == constructed(constructor, *arguments),
{
    match arguments {
        Chain::Empty => None,
        Chain::Link(last) => match &last.rest {
            Chain::Empty => match constructor {
                Constructor::Optional => Some(TyData::Option(last.item)),
                Constructor::Fallible => None,
                Constructor::List => Some(TyData::List(last.item)),
                Constructor::TextMap => Some(TyData::TextMap(last.item)),
                Constructor::Task => Some(TyData::Task(last.item)),
                Constructor::TaskOutcome => Some(TyData::TaskOutcome(last.item)),
            },
            Chain::Link(first) => if first.rest.is_empty() && constructor
                == Constructor::Fallible {
                Some(TyData::Result { ok: first.item, error: last.item })
            } else {
                None
            },
        },
    }
}

pub open spec fn constructor_arity(constructor: Constructor) -> usize {
    if constructor == Constructor::Fallible {
        2
    } else {
        1
    }
}

/// The generic parameter with a name.
pub open spec fn generic_named(
    program: &Program,
    parameters: Chain<GenericParamId>,
    name: Seq<char>,
) -> Option<GenericParamId>
    decreases parameters,
{
    match parameters {
        Chain::Empty => None,
        Chain::Link(link) => match at(program.generic_params@, link.item.0) {
            Some(found) => if found.name@ == name {
                Some(link.item)
            } else {
                generic_named(program, link.rest, name)
            },
            None => generic_named(program, link.rest, name),
        },
    }
}

pub(crate) fn find_generic(
    program: &Program,
    parameters: &Chain<GenericParamId>,
    name: &String,
) -> (parameter:
    Option<GenericParamId>)
    ensures
        parameter == generic_named(program, *parameters, name@),
    decreases parameters,
{
    match parameters {
        Chain::Empty => None,
        Chain::Link(link) => match get(&program.generic_params, link.item.0) {
            Some(found) => if found.name == *name {
                Some(link.item)
            } else {
                find_generic(program, &link.rest, name)
            },
            None => find_generic(program, &link.rest, name),
        },
    }
}

impl Program {
    /// The associated type of a concept with a name.
    pub open spec fn associated_named(self, concept: DefId, name: Seq<char>) -> Option<DefId> {
        match self.kind_of(concept) {
            Some(DefinitionKind::Concept { dyn_capable: _, associated_types, requirements: _ }) =>
                self.member_named(associated_types, name),
            _ => None,
        }
    }

    pub fn concept_associated_type(&self, concept: DefId, name: &String) -> (associated: Option<
        DefId,
    >)
        ensures
            associated == self.associated_named(concept, name@),
    {
        match self.kind(concept) {
            Some(DefinitionKind::Concept { dyn_capable: _, associated_types, requirements: _ }) =>
                self.find_member(associated_types, name),
            _ => None,
        }
    }

    /// One of the requirements may write to its receiver.
    pub open spec fn any_mutable(self, requirements: Chain<DefId>) -> bool
        decreases requirements,
    {
        match requirements {
            Chain::Empty => false,
            Chain::Link(link) => (match self.kind_of(link.item) {
                Some(DefinitionKind::Method { owner: _, signature }) => signature.receiver == Some(
                    ReceiverKind::Mutable,
                ),
                _ => false,
            }) || self.any_mutable(link.rest),
        }
    }

    fn has_mutable(&self, requirements: &Chain<DefId>) -> (result: bool)
        ensures
            result == self.any_mutable(*requirements),
        decreases requirements,
    {
        match requirements {
            Chain::Empty => false,
            Chain::Link(link) => {
                let own = match self.kind(link.item) {
                    Some(DefinitionKind::Method { owner: _, signature }) => signature.receiver
                        == Some(ReceiverKind::Mutable),
                    _ => false,
                };
                own || self.has_mutable(&link.rest)
            },
        }
    }

    /// How values of an interface are held.
    pub open spec fn view_mutability(self, concept: DefId) -> Mutability {
        match self.kind_of(concept) {
            Some(DefinitionKind::Concept { dyn_capable: _, associated_types: _, requirements }) =>
                if self.any_mutable(requirements) {
                    Mutability::Mutable
                } else {
                    Mutability::ReadOnly
                },
            _ => Mutability::ReadOnly,
        }
    }

    fn find_view_mutability(&self, concept: DefId) -> (mutability: Mutability)
        ensures
            mutability == self.view_mutability(concept),
    {
        match self.kind(concept) {
            Some(DefinitionKind::Concept { dyn_capable: _, associated_types: _, requirements }) =>
                if self.has_mutable(requirements) {
                    Mutability::Mutable
                } else {
                    Mutability::ReadOnly
                },
            _ => Mutability::ReadOnly,
        }
    }

    /// Where a type is written.
    pub open spec fn type_span_of(self, reference: TypeRefId) -> Span {
        match at(self.type_refs@, reference.0) {
            Some(found) => found.span,
            None => no_span(),
        }
    }

    pub fn type_span(&self, reference: TypeRefId) -> (span: Span)
        ensures
            span == self.type_span_of(reference),
    {
        match get(&self.type_refs, reference.0) {
            Some(found) => found.span,
            None => Span { file: 0, start: 0, end: 0 },
        }
    }
}

/// The bindings with one more, in the order of the associated types.
pub open spec fn binding_placed(
    bindings: Chain<AssociatedTypeBinding>,
    binding: AssociatedTypeBinding,
) -> Chain<AssociatedTypeBinding>
    decreases bindings,
{
    match bindings {
        Chain::Empty => bindings.pushed(binding),
        Chain::Link(link) => if link.item.associated_type.0 <= binding.associated_type.0 {
            bindings.pushed(binding)
        } else {
            binding_placed(link.rest, binding).pushed(link.item)
        },
    }
}

fn place_binding(
    bindings: &Chain<AssociatedTypeBinding>,
    binding: AssociatedTypeBinding,
) -> (result:
    Chain<AssociatedTypeBinding>)
    ensures
        result == binding_placed(*bindings, binding),
    decreases bindings,
{
    match bindings {
        Chain::Empty => bindings.clone().with(binding),
        Chain::Link(link) => if link.item.associated_type.0 <= binding.associated_type.0 {
            bindings.clone().with(binding)
        } else {
            place_binding(&link.rest, binding).with(link.item)
        },
    }
}

/// The bindings in the order of the associated types.
pub open spec fn bindings_sorted(bindings: Chain<AssociatedTypeBinding>) -> Chain<
    AssociatedTypeBinding,
>
    decreases bindings,
{
    match bindings {
        Chain::Empty => Chain::Empty,
        Chain::Link(link) => binding_placed(bindings_sorted(link.rest), link.item),
    }
}

pub(crate) fn sort_bindings(bindings: &Chain<AssociatedTypeBinding>) -> (result: Chain<
    AssociatedTypeBinding,
>)
    ensures
        result == bindings_sorted(*bindings),
    decreases bindings,
{
    match bindings {
        Chain::Empty => Chain::new(),
        Chain::Link(link) => place_binding(&sort_bindings(&link.rest), link.item),
    }
}

/// The associated types among the arguments of a written type.
pub open spec fn bindings_among(arguments: Chain<TypeArgumentRef>) -> Chain<BindingRef>
    decreases arguments,
{
    match arguments {
        Chain::Empty => Chain::Empty,
        Chain::Link(link) => match link.item {
            TypeArgumentRef::Binding(binding) => bindings_among(link.rest).pushed(binding),
            TypeArgumentRef::Type(_) => bindings_among(link.rest),
        },
    }
}

fn find_bindings(arguments: &Chain<TypeArgumentRef>) -> (bindings: Chain<BindingRef>)
    ensures
        bindings == bindings_among(*arguments),
    decreases arguments,
{
    match arguments {
        Chain::Empty => Chain::new(),
        Chain::Link(link) => match &link.item {
            TypeArgumentRef::Binding(binding) => find_bindings(&link.rest).with(binding.clone()),
            TypeArgumentRef::Type(_) => find_bindings(&link.rest),
        },
    }
}

impl Names {
    pub open spec fn wf(self) -> bool {
        types_wf(self.types)
    }

    #[verifier::opaque]
    pub open spec fn report(self, diagnostic: Diagnostic) -> Names {
        Names { diagnostics: self.diagnostics.pushed(diagnostic), ..self }
    }

    pub open spec fn error(self, code: &'static str, message: Message, span: Span) -> Names {
        self.report(plain(code, message, span))
    }

    pub open spec fn text_error(self, code: &'static str, text: &'static str, span: Span) -> Names {
        self.error(code, Message::Text(text), span)
    }

    pub open spec fn intern(self, data: TyData) -> (Names, TyId) {
        (
            Names { types: interned(self.types, data), ..self },
            interned_ty(self.types, data),
        )
    }

    #[verifier::opaque]
    pub open spec fn record(self, reference: TypeRefId, ty: TyId) -> Names {
        Names { type_refs: self.type_refs.inserted(reference.0, ty), ..self }
    }

    /// A path that stands for no definition is reported.
    #[verifier::opaque]
    pub open spec fn report_unresolved(self, path: Path, resolved: Resolved) -> Names {
        match resolved {
            Resolved::Found(_) => self,
            Resolved::Missing => self.error(
                "UnknownName",
                Message::Path("unknown name `", path.segments, "`"),
                path.last_span(),
            ),
            Resolved::Duplicate => self.error(
                "DuplicateDeclaration",
                Message::Path("`", path.segments, "` has multiple declarations"),
                path.last_span(),
            ),
            Resolved::Private => self.error(
                "NameNotVisible",
                Message::Path("`", path.segments, "` is not visible here"),
                path.last_span(),
            ),
            Resolved::UnknownModule(module) => self.error(
                "UnknownName",
                Message::Name("unknown module `", module, "`"),
                path.last_span(),
            ),
        }
    }

    #[verifier::opaque]
    pub open spec fn report_arity(
        self,
        program: &Program,
        reference: TypeRefId,
        path: Path,
        expected: usize,
        actual: usize,
    ) -> Names {
        self.error(
            "TypeMismatch",
            Message::PathCounts(
                "`",
                path.segments,
                "` expects ",
                expected,
                " type arguments, found ",
                actual,
                "",
            ),
            program.type_span_of(reference),
        )
    }

    #[verifier::opaque]
    pub open spec fn dynamic_view_type(self, program: &Program, target: ConceptInstance) -> (
        Names,
        TyId,
    ) {
        let (n, ty) = self.intern(TyData::DynTarget(target));
        n.intern(
            TyData::View { mutability: program.view_mutability(target.concept), target: ty },
        )
    }

    /// The type that a written type stands for.
    pub open spec fn resolve_type_ref(
        self,
        cx: &Sources,
        reference: TypeRefId,
        context: TypeContext,
        budget: u32,
    ) -> (Names, TyId)
        decreases budget, 0nat, 0nat,
    {
        match self.type_refs.lookup(reference.0) {
            Some(ty) => (self, ty),
            None => match at(cx.program.type_refs@, reference.0) {
                Some(source) => if budget > 0 {
                    let (n, ty) = self.resolve_kind(
                        cx,
                        reference,
                        source.kind,
                        context,
                        (budget - 1) as u32,
                    );
                    (n.record(reference, ty), ty)
                } else {
                    (self, error_ty())
                },
                None => (self, error_ty()),
            },
        }
    }

    pub open spec fn resolve_kind(
        self,
        cx: &Sources,
        reference: TypeRefId,
        kind: TypeRefKind,
        context: TypeContext,
        budget: u32,
    ) -> (Names, TyId)
        decreases budget, 4nat, 0nat,
    {
        match kind {
            TypeRefKind::Error => (self, error_ty()),
            TypeRefKind::Tuple(elements) => {
                let (n, types) = self.resolve_list(cx, elements, context, budget);
                n.intern(TyData::Tuple(types))
            },
            TypeRefKind::Path(path) => self.resolve_type_path(cx, path, context, budget),
            TypeRefKind::Apply { constructor, arguments } => self.resolve_type_application(
                cx,
                constructor,
                arguments,
                context,
                reference,
                budget,
            ),
            TypeRefKind::SelfType => self.resolve_self(cx, reference, context),
            TypeRefKind::Projection { self_ty, concept, associated } => {
                let (n, ty) = self.resolve_type_ref(cx, self_ty, context, budget);
                n.project(cx, reference, ty, concept, associated, context)
            },
            TypeRefKind::Dyn(target) => match self.resolve_concept_ref(
                cx,
                target.path,
                target.bindings,
                context,
                true,
                budget,
            ) {
                (n, Some(instance)) => n.dynamic_view_type(cx.program, instance),
                (n, None) => (n, error_ty()),
            },
        }
    }

    #[verifier::opaque]
    pub open spec fn resolve_self(
        self,
        cx: &Sources,
        reference: TypeRefId,
        context: TypeContext,
    ) -> (Names, TyId) {
        match context.self_ty {
            Some(ty) => (self, ty),
            None => (
                self.text_error(
                    "UnknownName",
                    "`Self` is only available in an impl or concept member",
                    cx.program.type_span_of(reference),
                ),
                error_ty(),
            ),
        }
    }

    /// An associated type of a type, by the concept that is written or that
    /// encloses it.
    #[verifier::opaque]
    pub open spec fn project(
        self,
        cx: &Sources,
        reference: TypeRefId,
        self_ty: TyId,
        concept: Option<Path>,
        associated: String,
        context: TypeContext,
    ) -> (Names, TyId) {
        let (n, known) = match concept {
            Some(path) => match path.concept {
                Resolved::Found(definition) => (self, Some(definition)),
                _ => (self.report_unresolved(path, path.concept), None),
            },
            None => match context.self_concept {
                Some(definition) => (self, Some(definition)),
                None => (
                    self.text_error(
                        "AssociatedProjectionAmbiguous",
                        "associated projection does not identify a concept",
                        cx.program.type_span_of(reference),
                    ),
                    None,
                ),
            },
        };
        match known {
            None => (n, error_ty()),
            Some(concept) => match cx.program.associated_named(concept, associated@) {
                Some(associated_type) => n.intern(
                    TyData::Projection { self_ty, concept, associated_type },
                ),
                None => (
                    n.error(
                        "UnknownName",
                        Message::Name("concept has no associated type `", associated, "`"),
                        cx.program.type_span_of(reference),
                    ),
                    error_ty(),
                ),
            },
        }
    }

    pub open spec fn resolve_list(
        self,
        cx: &Sources,
        list: Chain<TypeRefId>,
        context: TypeContext,
        budget: u32,
    ) -> (Names, Chain<TyId>)
        decreases budget, 1nat, list.spec_len(),
    {
        match list {
            Chain::Empty => (self, Chain::Empty),
            Chain::Link(link) => {
                let (n, types) = self.resolve_list(cx, link.rest, context, budget);
                let (n, ty) = n.resolve_type_ref(cx, link.item, context, budget);
                (n, types.pushed(ty))
            },
        }
    }

    pub open spec fn resolve_arguments(
        self,
        cx: &Sources,
        list: Chain<TypeArgumentRef>,
        context: TypeContext,
        reference: TypeRefId,
        budget: u32,
    ) -> (Names, Chain<TyId>)
        decreases budget, 1nat, list.spec_len(),
    {
        match list {
            Chain::Empty => (self, Chain::Empty),
            Chain::Link(link) => {
                let (n, types) = self.resolve_arguments(
                    cx,
                    link.rest,
                    context,
                    reference,
                    budget,
                );
                match link.item {
                    TypeArgumentRef::Type(argument) => {
                        let (n, ty) = n.resolve_type_ref(cx, argument, context, budget);
                        (n, types.pushed(ty))
                    },
                    TypeArgumentRef::Binding(_) => (
                        n.text_error(
                            "TypeMismatch",
                            "associated bindings are only valid on concept references",
                            cx.program.type_span_of(reference),
                        ),
                        types,
                    ),
                }
            },
        }
    }

    pub open spec fn resolve_type_application(
        self,
        cx: &Sources,
        constructor: Path,
        arguments: Chain<TypeArgumentRef>,
        context: TypeContext,
        reference: TypeRefId,
        budget: u32,
    ) -> (Names, TyId)
        decreases budget, 3nat, 0nat,
    {
        let (n, types) = self.resolve_arguments(cx, arguments, context, reference, budget);
        n.apply_constructor(cx, constructor, types, reference)
    }

    /// A type constructor is applied to its arguments.
    #[verifier::opaque]
    pub open spec fn apply_constructor(
        self,
        cx: &Sources,
        constructor: Path,
        types: Chain<TyId>,
        reference: TypeRefId,
    ) -> (Names, TyId) {
        match constructor_of(constructor) {
            Some(prelude) => match constructed(prelude, types) {
                Some(data) => self.intern(data),
                None => (
                    self.report_arity(
                        cx.program,
                        reference,
                        constructor,
                        constructor_arity(prelude),
                        types.count(),
                    ),
                    error_ty(),
                ),
            },
            None => {
                let (n, known) = self.type_definition(cx, constructor);
                match known {
                    None => (n, error_ty()),
                    Some(definition) => {
                        let expected = cx.program.type_params_of(definition);
                        if expected.spec_len() != types.spec_len() {
                            (
                                n.report_arity(
                                    cx.program,
                                    reference,
                                    constructor,
                                    expected.count(),
                                    types.count(),
                                ),
                                error_ty(),
                            )
                        } else {
                            n.intern(TyData::Nominal { definition, arguments: types })
                        }
                    },
                }
            },
        }
    }

    /// The type definition that a path names.
    #[verifier::opaque]
    pub open spec fn type_definition(self, cx: &Sources, path: Path) -> (Names, Option<DefId>) {
        match prelude_type(cx.items, path) {
            Some(definition) => (self, Some(definition)),
            None => match path.ty {
                Resolved::Found(definition) => (self, Some(definition)),
                _ => (self.report_unresolved(path, path.ty), None),
            },
        }
    }

    pub open spec fn resolve_type_path(
        self,
        cx: &Sources,
        path: Path,
        context: TypeContext,
        budget: u32,
    ) -> (Names, TyId)
        decreases budget, 3nat, 0nat,
    {
        match path.pair() {
            Some((first, second)) => match generic_named(
                cx.program,
                context.generic_params,
                first.name@,
            ) {
                Some(parameter) => match at(cx.program.generic_params@, parameter.0) {
                    Some(declared) => {
                        let (n, candidates) = self.resolve_projections(
                            cx,
                            declared.bounds,
                            second.name@,
                            context,
                            budget,
                        );
                        n.pick_projection(parameter, first.name, second.name, second.span, candidates)
                    },
                    None => (self, error_ty()),
                },
                None => self.plain_path(cx, path, context),
            },
            None => self.plain_path(cx, path, context),
        }
    }

    /// The bounds that declare an associated type with a name.
    pub open spec fn resolve_projections(
        self,
        cx: &Sources,
        bounds: Chain<ConceptRef>,
        name: Seq<char>,
        context: TypeContext,
        budget: u32,
    ) -> (Names, Chain<(ConceptInstance, DefId)>)
        decreases budget, 2nat, 1 + bounds.spec_len(),
    {
        match bounds {
            Chain::Empty => (self, Chain::Empty),
            Chain::Link(link) => {
                let (n, list) = self.resolve_projections(cx, link.rest, name, context, budget);
                match n.resolve_concept_ref(
                    cx,
                    link.item.path,
                    link.item.bindings,
                    context,
                    false,
                    budget,
                ) {
                    (n, Some(instance)) => match cx.program.associated_named(
                        instance.concept,
                        name,
                    ) {
                        Some(associated_type) => (n, list.pushed((instance, associated_type))),
                        None => (n, list),
                    },
                    (n, None) => (n, list),
                }
            },
        }
    }

    #[verifier::opaque]
    pub open spec fn pick_projection(
        self,
        parameter: GenericParamId,
        parameter_name: String,
        associated_name: String,
        span: Span,
        candidates: Chain<(ConceptInstance, DefId)>,
    ) -> (Names, TyId) {
        match candidates {
            Chain::Empty => (
                self.error(
                    "UnknownName",
                    Message::Names(
                        "no bound on `",
                        parameter_name,
                        "` declares associated type `",
                        associated_name,
                        "`",
                    ),
                    span,
                ),
                error_ty(),
            ),
            Chain::Link(link) => if !(link.rest is Empty) {
                (
                    self.error(
                        "AssociatedProjectionAmbiguous",
                        Message::Names(
                            "multiple bounds on `",
                            parameter_name,
                            "` declare associated type `",
                            associated_name,
                            "`",
                        ),
                        span,
                    ),
                    error_ty(),
                )
            } else {
                match first_binding(link.item.0.bindings, link.item.1) {
                    Some(ty) => (self, ty),
                    None => {
                        let (n, self_ty) = self.intern(TyData::Param(parameter));
                        n.intern(
                            TyData::Projection {
                                self_ty,
                                concept: link.item.0.concept,
                                associated_type: link.item.1,
                            },
                        )
                    },
                }
            },
        }
    }

    /// A path that stands for a type without arguments.
    #[verifier::opaque]
    pub open spec fn plain_path(self, cx: &Sources, path: Path, context: TypeContext) -> (
        Names,
        TyId,
    ) {
        match path.single() {
            Some(segment) => match generic_named(
                cx.program,
                context.generic_params,
                segment.name@,
            ) {
                Some(parameter) => self.intern(TyData::Param(parameter)),
                None => match builtin_named(segment.name@) {
                    Some(builtin) => (self, builtin_ty(builtin)),
                    None => match prelude_type(cx.items, path) {
                        Some(definition) => self.intern(
                            TyData::Nominal { definition, arguments: Chain::Empty },
                        ),
                        None => match constructor_of(path) {
                            Some(constructor) => if constructor == Constructor::TextMap {
                                self.defined_path(cx, path)
                            } else {
                                (
                                    self.error(
                                        "TypeMismatch",
                                        Message::Name(
                                            "generic type `",
                                            segment.name,
                                            "` requires type arguments",
                                        ),
                                        segment.span,
                                    ),
                                    error_ty(),
                                )
                            },
                            None => self.defined_path(cx, path),
                        },
                    },
                },
            },
            None => self.defined_path(cx, path),
        }
    }

    #[verifier::opaque]
    pub open spec fn defined_path(self, cx: &Sources, path: Path) -> (Names, TyId) {
        match path.ty {
            Resolved::Found(definition) => if cx.program.type_params_of(definition) is Empty {
                self.intern(TyData::Nominal { definition, arguments: Chain::Empty })
            } else {
                (
                    self.error(
                        "CannotInferType",
                        Message::Path(
                            "generic type `",
                            path.segments,
                            "` requires type arguments",
                        ),
                        path.last_span(),
                    ),
                    error_ty(),
                )
            },
            _ => (self.report_unresolved(path, path.ty), error_ty()),
        }
    }

    /// The concept that a written concept stands for.
    pub open spec fn resolve_concept_ref(
        self,
        cx: &Sources,
        path: Path,
        bindings: Chain<BindingRef>,
        context: TypeContext,
        require_dynamic: bool,
        budget: u32,
    ) -> (Names, Option<ConceptInstance>)
        decreases budget, 2nat, 0nat,
    {
        match self.begin_concept(cx, path, require_dynamic) {
            (n, None) => (n, None),
            (n, Some(concept)) => {
                let (n, list, seen) = n.resolve_bindings(
                    cx,
                    concept,
                    bindings,
                    path.last_span(),
                    context,
                    budget,
                );
                (
                    n.require_bound(cx, concept, seen, require_dynamic, path.last_span()),
                    Some(ConceptInstance { concept, bindings: bindings_sorted(list) }),
                )
            },
        }
    }

    #[verifier::opaque]
    pub open spec fn begin_concept(self, cx: &Sources, path: Path, require_dynamic: bool) -> (
        Names,
        Option<DefId>,
    ) {
        match path.concept {
            Resolved::Found(concept) => match cx.program.kind_of(concept) {
                Some(
                    DefinitionKind::Concept { dyn_capable, associated_types: _, requirements: _ },
                ) => (
                    if require_dynamic && !dyn_capable {
                        self.error(
                            "DynNotDeclared",
                            Message::Path("concept `", path.segments, "` was not declared `dyn`"),
                            path.last_span(),
                        )
                    } else {
                        self
                    },
                    Some(concept),
                ),
                _ => (self, None),
            },
            _ => (self.report_unresolved(path, path.concept), None),
        }
    }

    /// The associated types that a written concept fixes, in the order in
    /// which they are written.
    pub open spec fn resolve_bindings(
        self,
        cx: &Sources,
        concept: DefId,
        bindings: Chain<BindingRef>,
        span: Span,
        context: TypeContext,
        budget: u32,
    ) -> (Names, Chain<AssociatedTypeBinding>, Chain<u32>)
        decreases budget, 1nat, bindings.spec_len(),
    {
        match bindings {
            Chain::Empty => (self, Chain::Empty, Chain::Empty),
            Chain::Link(link) => {
                let (n, list, seen) = self.resolve_bindings(
                    cx,
                    concept,
                    link.rest,
                    span,
                    context,
                    budget,
                );
                match cx.program.associated_named(concept, link.item.name@) {
                    None => (
                        n.error(
                            "UnknownName",
                            Message::Name(
                                "concept has no associated type `",
                                link.item.name,
                                "`",
                            ),
                            span,
                        ),
                        list,
                        seen,
                    ),
                    Some(associated_type) => if has_id(seen, associated_type.0) {
                        (
                            n.error(
                                "DuplicateDeclaration",
                                Message::Name(
                                    "associated type `",
                                    link.item.name,
                                    "` is bound more than once",
                                ),
                                span,
                            ),
                            list,
                            seen,
                        )
                    } else {
                        let (n, ty) = n.resolve_type_ref(cx, link.item.ty, context, budget);
                        (
                            n,
                            list.pushed(AssociatedTypeBinding { associated_type, ty }),
                            id_inserted(seen, associated_type.0),
                        )
                    },
                }
            },
        }
    }

    /// An interface must fix each associated type of its concept.
    #[verifier::opaque]
    pub open spec fn require_bound(
        self,
        cx: &Sources,
        concept: DefId,
        seen: Chain<u32>,
        require_dynamic: bool,
        span: Span,
    ) -> Names {
        match cx.program.kind_of(concept) {
            Some(DefinitionKind::Concept { dyn_capable: _, associated_types, requirements: _ }) =>
                if require_dynamic {
                    self.report_unbound(associated_types, seen, span)
                } else {
                    self
                },
            _ => self,
        }
    }

    #[verifier::opaque]
    pub open spec fn report_unbound(
        self,
        associated_types: Chain<DefId>,
        seen: Chain<u32>,
        span: Span,
    ) -> Names
        decreases associated_types,
    {
        match associated_types {
            Chain::Empty => self,
            Chain::Link(link) => {
                let n = self.report_unbound(link.rest, seen, span);
                if has_id(seen, link.item.0) {
                    n
                } else {
                    n.error(
                        "DynAssociatedTypeUnbound",
                        Message::Definition(
                            "dyn use must bind associated type `",
                            link.item,
                            "`",
                            "<error>",
                        ),
                        span,
                    )
                }
            },
        }
    }

    /// The type of a parameter. The name of a concept stands for its
    /// interface here.
    pub open spec fn resolve_parameter_type(
        self,
        cx: &Sources,
        reference: TypeRefId,
        context: TypeContext,
        budget: u32,
    ) -> (Names, TyId) {
        match at(cx.program.type_refs@, reference.0) {
            None => (self, error_ty()),
            Some(source) => match interface_of(source.kind) {
                Some((path, bindings)) => {
                    let (n, instance) = self.resolve_concept_ref(
                        cx,
                        path,
                        bindings,
                        context,
                        true,
                        budget,
                    );
                    let (n, ty) = match instance {
                        Some(target) => n.dynamic_view_type(cx.program, target),
                        None => (n, error_ty()),
                    };
                    (n.record(reference, ty), ty)
                },
                None => self.resolve_type_ref(cx, reference, context, budget),
            },
        }
    }
}

/// The concept that a written type of a parameter names.
pub open spec fn interface_of(kind: TypeRefKind) -> Option<(Path, Chain<BindingRef>)> {
    match kind {
        TypeRefKind::Path(path) => if path.concept is Found {
            Some((path, Chain::Empty))
        } else {
            None
        },
        TypeRefKind::Apply { constructor, arguments } => if constructor.concept is Found
            && !(bindings_among(arguments) is Empty) {
            Some((constructor, bindings_among(arguments)))
        } else {
            None
        },
        _ => None,
    }
}

fn is_found(resolved: &Resolved) -> (result: bool)
    ensures
        result == (resolved is Found),
{
    match resolved {
        Resolved::Found(_) => true,
        _ => false,
    }
}

fn find_interface(kind: &TypeRefKind) -> (result: Option<(&Path, Chain<BindingRef>)>)
    ensures
        match result {
            Some((path, bindings)) => interface_of(*kind) == Some((*path, bindings)),
            None => interface_of(*kind) is None,
        },
{
    match kind {
        TypeRefKind::Path(path) => if is_found(&path.concept) {
            Some((path, Chain::new()))
        } else {
            None
        },
        TypeRefKind::Apply { constructor, arguments } => {
            let bindings = find_bindings(arguments);
            if is_found(&constructor.concept) && !bindings.is_empty() {
                Some((constructor, bindings))
            } else {
                None
            }
        },
        _ => None,
    }
}

impl TypeResolver {
    pub open spec fn wf(self) -> bool {
        types_wf(self.types@)
    }

    pub fn report(&mut self, diagnostic: Diagnostic)
        ensures
            adds_to(old(self)@.diagnostics, final(self)@.diagnostics),
            final(self)@.types == old(self)@.types,
            final(self)@ == old(self)@.report(diagnostic),
    {
        proof {
            reveal(Names::report);
        }
        self.diagnostics.push(diagnostic);
    }

    pub fn error(&mut self, code: &'static str, message: Message, span: Span)
        ensures
            adds_to(old(self)@.diagnostics, final(self)@.diagnostics),
            final(self)@.types == old(self)@.types,
            final(self)@ == old(self)@.error(code, message, span),
    {
        self.report(Diagnostic::error(code, message, span));
    }

    pub fn text_error(&mut self, code: &'static str, text: &'static str, span: Span)
        ensures
            adds_to(old(self)@.diagnostics, final(self)@.diagnostics),
            final(self)@.types == old(self)@.types,
            final(self)@ == old(self)@.text_error(code, text, span),
    {
        self.error(code, Message::Text(text), span);
    }

    pub fn intern(&mut self, data: TyData) -> (ty: TyId)
        requires
            old(self).wf(),
        ensures
            adds_to(old(self)@.diagnostics, final(self)@.diagnostics),
            final(self).wf(),
            later(old(self)@.types, final(self)@.types),
            (final(self)@, ty) == old(self)@.intern(data),
    {
        self.types.intern(data)
    }

    pub fn record(&mut self, reference: TypeRefId, ty: TyId)
        ensures
            adds_to(old(self)@.diagnostics, final(self)@.diagnostics),
            final(self)@.types == old(self)@.types,
            final(self)@ == old(self)@.record(reference, ty),
    {
        proof {
            reveal(Names::record);
        }
        self.type_refs.insert(reference.0, ty);
    }

    fn report_unresolved(&mut self, path: &Path, resolved: &Resolved)
        ensures
            adds_to(old(self)@.diagnostics, final(self)@.diagnostics),
            final(self)@.types == old(self)@.types,
            final(self)@ == old(self)@.report_unresolved(*path, *resolved),
    {
        proof {
            reveal(Names::report_unresolved);
        }
        match resolved {
            Resolved::Found(_) => {},
            Resolved::Missing => self.error(
                "UnknownName",
                Message::Path("unknown name `", path.segments.clone(), "`"),
                path.end_span(),
            ),
            Resolved::Duplicate => self.error(
                "DuplicateDeclaration",
                Message::Path("`", path.segments.clone(), "` has multiple declarations"),
                path.end_span(),
            ),
            Resolved::Private => self.error(
                "NameNotVisible",
                Message::Path("`", path.segments.clone(), "` is not visible here"),
                path.end_span(),
            ),
            Resolved::UnknownModule(module) => self.error(
                "UnknownName",
                Message::Name("unknown module `", module.clone(), "`"),
                path.end_span(),
            ),
        }
    }

    fn report_arity(
        &mut self,
        program: &Program,
        reference: TypeRefId,
        path: &Path,
        expected: usize,
        actual: usize,
    )
        ensures
            adds_to(old(self)@.diagnostics, final(self)@.diagnostics),
            final(self)@.types == old(self)@.types,
            final(self)@ == old(self)@.report_arity(program, reference, *path, expected, actual),
    {
        proof {
            reveal(Names::report_arity);
        }
        self.error(
            "TypeMismatch",
            Message::PathCounts(
                "`",
                path.segments.clone(),
                "` expects ",
                expected,
                " type arguments, found ",
                actual,
                "",
            ),
            program.type_span(reference),
        );
    }

    fn dynamic_view_type(&mut self, program: &Program, target: ConceptInstance) -> (ty: TyId)
        requires
            old(self).wf(),
        ensures
            adds_to(old(self)@.diagnostics, final(self)@.diagnostics),
            final(self).wf(),
            later(old(self)@.types, final(self)@.types),
            (final(self)@, ty) == old(self)@.dynamic_view_type(program, target),
    {
        proof {
            reveal(Names::dynamic_view_type);
        }
        let mutability = program.find_view_mutability(target.concept);
        let target_ty = self.intern(TyData::DynTarget(target));
        self.intern(TyData::View { mutability, target: target_ty })
    }

    /// The type that a written type stands for.
    pub fn resolve_type_ref(
        &mut self,
        cx: &Sources,
        reference: TypeRefId,
        context: &TypeContext,
        budget: u32,
    ) -> (ty: TyId)
        requires
            old(self).wf(),
        ensures
            adds_to(old(self)@.diagnostics, final(self)@.diagnostics),
            final(self).wf(),
            later(old(self)@.types, final(self)@.types),
            (final(self)@, ty) == old(self)@.resolve_type_ref(cx, reference, *context, budget),
        decreases budget, 0nat, 0nat,
    {
        match self.type_refs.get(reference.0) {
            Some(ty) => *ty,
            None => match get(&cx.program.type_refs, reference.0) {
                Some(source) => if budget > 0 {
                    let ty = self.resolve_kind(cx, reference, &source.kind, context, budget - 1);
                    self.record(reference, ty);
                    ty
                } else {
                    TyId(0)
                },
                None => TyId(0),
            },
        }
    }

    fn resolve_kind(
        &mut self,
        cx: &Sources,
        reference: TypeRefId,
        kind: &TypeRefKind,
        context: &TypeContext,
        budget: u32,
    ) -> (ty: TyId)
        requires
            old(self).wf(),
        ensures
            adds_to(old(self)@.diagnostics, final(self)@.diagnostics),
            final(self).wf(),
            later(old(self)@.types, final(self)@.types),
            (final(self)@, ty) == old(self)@.resolve_kind(
                cx,
                reference,
                *kind,
                *context,
                budget,
            ),
        decreases budget, 4nat, 0nat,
    {
        match kind {
            TypeRefKind::Error => TyId(0),
            TypeRefKind::Tuple(elements) => {
                let types = self.resolve_list(cx, elements, context, budget);
                self.intern(TyData::Tuple(types))
            },
            TypeRefKind::Path(path) => self.resolve_type_path(cx, path, context, budget),
            TypeRefKind::Apply { constructor, arguments } => self.resolve_type_application(
                cx,
                constructor,
                arguments,
                context,
                reference,
                budget,
            ),
            TypeRefKind::SelfType => self.resolve_self(cx, reference, context),
            TypeRefKind::Projection { self_ty, concept, associated } => {
                let ty = self.resolve_type_ref(cx, *self_ty, context, budget);
                self.project(cx, reference, ty, concept, associated, context)
            },
            TypeRefKind::Dyn(target) => match self.resolve_concept_ref(
                cx,
                &target.path,
                &target.bindings,
                context,
                true,
                budget,
            ) {
                Some(instance) => self.dynamic_view_type(cx.program, instance),
                None => TyId(0),
            },
        }
    }

    fn resolve_self(&mut self, cx: &Sources, reference: TypeRefId, context: &TypeContext) -> (ty:
        TyId)
        ensures
            adds_to(old(self)@.diagnostics, final(self)@.diagnostics),
            final(self)@.types == old(self)@.types,
            (final(self)@, ty) == old(self)@.resolve_self(cx, reference, *context),
    {
        proof {
            reveal(Names::resolve_self);
        }
        match context.self_ty {
            Some(ty) => ty,
            None => {
                self.text_error(
                    "UnknownName",
                    "`Self` is only available in an impl or concept member",
                    cx.program.type_span(reference),
                );
                TyId(0)
            },
        }
    }

    fn project(
        &mut self,
        cx: &Sources,
        reference: TypeRefId,
        self_ty: TyId,
        concept: &Option<Path>,
        associated: &String,
        context: &TypeContext,
    ) -> (ty: TyId)
        requires
            old(self).wf(),
        ensures
            adds_to(old(self)@.diagnostics, final(self)@.diagnostics),
            final(self).wf(),
            later(old(self)@.types, final(self)@.types),
            (final(self)@, ty) == old(self)@.project(
                cx,
                reference,
                self_ty,
                *concept,
                *associated,
                *context,
            ),
    {
        proof {
            reveal(Names::project);
        }
        let known = match concept {
            Some(path) => match &path.concept {
                Resolved::Found(definition) => Some(*definition),
                _ => {
                    self.report_unresolved(path, &path.concept);
                    None
                },
            },
            None => match context.self_concept {
                Some(definition) => Some(definition),
                None => {
                    self.text_error(
                        "AssociatedProjectionAmbiguous",
                        "associated projection does not identify a concept",
                        cx.program.type_span(reference),
                    );
                    None
                },
            },
        };
        match known {
            None => TyId(0),
            Some(concept) => match cx.program.concept_associated_type(concept, associated) {
                Some(associated_type) => self.intern(
                    TyData::Projection { self_ty, concept, associated_type },
                ),
                None => {
                    self.error(
                        "UnknownName",
                        Message::Name("concept has no associated type `", associated.clone(), "`"),
                        cx.program.type_span(reference),
                    );
                    TyId(0)
                },
            },
        }
    }

    pub fn resolve_list(
        &mut self,
        cx: &Sources,
        list: &Chain<TypeRefId>,
        context: &TypeContext,
        budget: u32,
    ) -> (types: Chain<TyId>)
        requires
            old(self).wf(),
        ensures
            adds_to(old(self)@.diagnostics, final(self)@.diagnostics),
            final(self).wf(),
            later(old(self)@.types, final(self)@.types),
            (final(self)@, types) == old(self)@.resolve_list(cx, *list, *context, budget),
        decreases budget, 1nat, list.spec_len(),
    {
        match list {
            Chain::Empty => Chain::new(),
            Chain::Link(link) => {
                let types = self.resolve_list(cx, &link.rest, context, budget);
                let ty = self.resolve_type_ref(cx, link.item, context, budget);
                types.with(ty)
            },
        }
    }

    fn resolve_arguments(
        &mut self,
        cx: &Sources,
        list: &Chain<TypeArgumentRef>,
        context: &TypeContext,
        reference: TypeRefId,
        budget: u32,
    ) -> (types: Chain<TyId>)
        requires
            old(self).wf(),
        ensures
            adds_to(old(self)@.diagnostics, final(self)@.diagnostics),
            final(self).wf(),
            later(old(self)@.types, final(self)@.types),
            (final(self)@, types) == old(self)@.resolve_arguments(
                cx,
                *list,
                *context,
                reference,
                budget,
            ),
        decreases budget, 1nat, list.spec_len(),
    {
        match list {
            Chain::Empty => Chain::new(),
            Chain::Link(link) => {
                let types = self.resolve_arguments(cx, &link.rest, context, reference, budget);
                match &link.item {
                    TypeArgumentRef::Type(argument) => {
                        let ty = self.resolve_type_ref(cx, *argument, context, budget);
                        types.with(ty)
                    },
                    TypeArgumentRef::Binding(_) => {
                        self.text_error(
                            "TypeMismatch",
                            "associated bindings are only valid on concept references",
                            cx.program.type_span(reference),
                        );
                        types
                    },
                }
            },
        }
    }

    fn resolve_type_application(
        &mut self,
        cx: &Sources,
        constructor: &Path,
        arguments: &Chain<TypeArgumentRef>,
        context: &TypeContext,
        reference: TypeRefId,
        budget: u32,
    ) -> (ty: TyId)
        requires
            old(self).wf(),
        ensures
            adds_to(old(self)@.diagnostics, final(self)@.diagnostics),
            final(self).wf(),
            later(old(self)@.types, final(self)@.types),
            (final(self)@, ty) == old(self)@.resolve_type_application(
                cx,
                *constructor,
                *arguments,
                *context,
                reference,
                budget,
            ),
        decreases budget, 3nat, 0nat,
    {
        let types = self.resolve_arguments(cx, arguments, context, reference, budget);
        self.apply_constructor(cx, constructor, types, reference)
    }

    fn apply_constructor(
        &mut self,
        cx: &Sources,
        constructor: &Path,
        types: Chain<TyId>,
        reference: TypeRefId,
    ) -> (ty: TyId)
        requires
            old(self).wf(),
        ensures
            adds_to(old(self)@.diagnostics, final(self)@.diagnostics),
            final(self).wf(),
            later(old(self)@.types, final(self)@.types),
            (final(self)@, ty) == old(self)@.apply_constructor(
                cx,
                *constructor,
                types,
                reference,
            ),
    {
        proof {
            reveal(Names::apply_constructor);
        }
        match find_constructor(constructor) {
            Some(prelude) => match construct(prelude, &types) {
                Some(data) => self.intern(data),
                None => {
                    let expected: usize = if prelude == Constructor::Fallible {
                        2
                    } else {
                        1
                    };
                    self.report_arity(cx.program, reference, constructor, expected, types.len());
                    TyId(0)
                },
            },
            None => match self.type_definition(cx, constructor) {
                None => TyId(0),
                Some(definition) => {
                    let expected = cx.program.type_generic_params(definition);
                    if !crate::chain::same_length(&expected, &types) {
                        self.report_arity(
                            cx.program,
                            reference,
                            constructor,
                            expected.len(),
                            types.len(),
                        );
                        TyId(0)
                    } else {
                        self.intern(TyData::Nominal { definition, arguments: types })
                    }
                },
            },
        }
    }

    fn type_definition(&mut self, cx: &Sources, path: &Path) -> (definition: Option<DefId>)
        ensures
            adds_to(old(self)@.diagnostics, final(self)@.diagnostics),
            final(self)@.types == old(self)@.types,
            (final(self)@, definition) == old(self)@.type_definition(cx, *path),
    {
        proof {
            reveal(Names::type_definition);
        }
        match canonical_prelude_type(cx.items, path) {
            Some(definition) => Some(definition),
            None => match &path.ty {
                Resolved::Found(definition) => Some(*definition),
                _ => {
                    self.report_unresolved(path, &path.ty);
                    None
                },
            },
        }
    }

    fn resolve_type_path(
        &mut self,
        cx: &Sources,
        path: &Path,
        context: &TypeContext,
        budget: u32,
    ) -> (ty:
        TyId)
        requires
            old(self).wf(),
        ensures
            adds_to(old(self)@.diagnostics, final(self)@.diagnostics),
            final(self).wf(),
            later(old(self)@.types, final(self)@.types),
            (final(self)@, ty) == old(self)@.resolve_type_path(cx, *path, *context, budget),
        decreases budget, 3nat, 0nat,
    {
        match path.both_segments() {
            Some((first, second)) => match find_generic(
                cx.program,
                &context.generic_params,
                &first.name,
            ) {
                Some(parameter) => match get(&cx.program.generic_params, parameter.0) {
                    Some(declared) => {
                        let candidates = self.resolve_projections(
                            cx,
                            &declared.bounds,
                            &second.name,
                            context,
                            budget,
                        );
                        self.pick_projection(
                            parameter,
                            &first.name,
                            &second.name,
                            second.span,
                            &candidates,
                        )
                    },
                    None => TyId(0),
                },
                None => self.plain_path(cx, path, context),
            },
            None => self.plain_path(cx, path, context),
        }
    }

    fn resolve_projections(
        &mut self,
        cx: &Sources,
        bounds: &Chain<ConceptRef>,
        name: &String,
        context: &TypeContext,
        budget: u32,
    ) -> (list: Chain<(ConceptInstance, DefId)>)
        requires
            old(self).wf(),
        ensures
            adds_to(old(self)@.diagnostics, final(self)@.diagnostics),
            final(self).wf(),
            later(old(self)@.types, final(self)@.types),
            (final(self)@, list) == old(self)@.resolve_projections(
                cx,
                *bounds,
                name@,
                *context,
                budget,
            ),
        decreases budget, 2nat, 1 + bounds.spec_len(),
    {
        match bounds {
            Chain::Empty => Chain::new(),
            Chain::Link(link) => {
                let list = self.resolve_projections(cx, &link.rest, name, context, budget);
                match self.resolve_concept_ref(
                    cx,
                    &link.item.path,
                    &link.item.bindings,
                    context,
                    false,
                    budget,
                ) {
                    Some(instance) => match cx.program.concept_associated_type(
                        instance.concept,
                        name,
                    ) {
                        Some(associated_type) => list.with((instance, associated_type)),
                        None => list,
                    },
                    None => list,
                }
            },
        }
    }

    fn pick_projection(
        &mut self,
        parameter: GenericParamId,
        parameter_name: &String,
        associated_name: &String,
        span: Span,
        candidates: &Chain<(ConceptInstance, DefId)>,
    ) -> (ty: TyId)
        requires
            old(self).wf(),
        ensures
            adds_to(old(self)@.diagnostics, final(self)@.diagnostics),
            final(self).wf(),
            later(old(self)@.types, final(self)@.types),
            (final(self)@, ty) == old(self)@.pick_projection(
                parameter,
                *parameter_name,
                *associated_name,
                span,
                *candidates,
            ),
    {
        proof {
            reveal(Names::pick_projection);
        }
        match candidates {
            Chain::Empty => {
                self.error(
                    "UnknownName",
                    Message::Names(
                        "no bound on `",
                        parameter_name.clone(),
                        "` declares associated type `",
                        associated_name.clone(),
                        "`",
                    ),
                    span,
                );
                TyId(0)
            },
            Chain::Link(link) => {
                if !link.rest.is_empty() {
                    self.error(
                        "AssociatedProjectionAmbiguous",
                        Message::Names(
                            "multiple bounds on `",
                            parameter_name.clone(),
                            "` declare associated type `",
                            associated_name.clone(),
                            "`",
                        ),
                        span,
                    );
                    return TyId(0);
                }
                match find_first_binding(&link.item.0.bindings, link.item.1) {
                    Some(ty) => ty,
                    None => {
                        let self_ty = self.intern(TyData::Param(parameter));
                        self.intern(
                            TyData::Projection {
                                self_ty,
                                concept: link.item.0.concept,
                                associated_type: link.item.1,
                            },
                        )
                    },
                }
            },
        }
    }

    fn plain_path(&mut self, cx: &Sources, path: &Path, context: &TypeContext) -> (ty: TyId)
        requires
            old(self).wf(),
        ensures
            adds_to(old(self)@.diagnostics, final(self)@.diagnostics),
            final(self).wf(),
            later(old(self)@.types, final(self)@.types),
            (final(self)@, ty) == old(self)@.plain_path(cx, *path, *context),
    {
        proof {
            reveal(Names::plain_path);
        }
        match path.only_segment() {
            Some(segment) => match find_generic(
                cx.program,
                &context.generic_params,
                &segment.name,
            ) {
                Some(parameter) => self.intern(TyData::Param(parameter)),
                None => match builtin_type(&segment.name) {
                    Some(builtin) => self.types.builtin(builtin),
                    None => match canonical_prelude_type(cx.items, path) {
                        Some(definition) => self.intern(
                            TyData::Nominal { definition, arguments: Chain::new() },
                        ),
                        None => match find_constructor(path) {
                            Some(constructor) => if constructor == Constructor::TextMap {
                                self.defined_path(cx, path)
                            } else {
                                self.error(
                                    "TypeMismatch",
                                    Message::Name(
                                        "generic type `",
                                        segment.name.clone(),
                                        "` requires type arguments",
                                    ),
                                    segment.span,
                                );
                                TyId(0)
                            },
                            None => self.defined_path(cx, path),
                        },
                    },
                },
            },
            None => self.defined_path(cx, path),
        }
    }

    fn defined_path(&mut self, cx: &Sources, path: &Path) -> (ty: TyId)
        requires
            old(self).wf(),
        ensures
            adds_to(old(self)@.diagnostics, final(self)@.diagnostics),
            final(self).wf(),
            later(old(self)@.types, final(self)@.types),
            (final(self)@, ty) == old(self)@.defined_path(cx, *path),
    {
        proof {
            reveal(Names::defined_path);
        }
        match &path.ty {
            Resolved::Found(definition) => if cx.program.type_generic_params(
                *definition,
            ).is_empty() {
                self.intern(
                    TyData::Nominal { definition: *definition, arguments: Chain::new() },
                )
            } else {
                self.error(
                    "CannotInferType",
                    Message::Path(
                        "generic type `",
                        path.segments.clone(),
                        "` requires type arguments",
                    ),
                    path.end_span(),
                );
                TyId(0)
            },
            _ => {
                self.report_unresolved(path, &path.ty);
                TyId(0)
            },
        }
    }

    /// The concept that a written concept stands for.
    pub fn resolve_concept_ref(
        &mut self,
        cx: &Sources,
        path: &Path,
        bindings: &Chain<BindingRef>,
        context: &TypeContext,
        require_dynamic: bool,
        budget: u32,
    ) -> (instance: Option<ConceptInstance>)
        requires
            old(self).wf(),
        ensures
            adds_to(old(self)@.diagnostics, final(self)@.diagnostics),
            final(self).wf(),
            later(old(self)@.types, final(self)@.types),
            (final(self)@, instance) == old(self)@.resolve_concept_ref(
                cx,
                *path,
                *bindings,
                *context,
                require_dynamic,
                budget,
            ),
        decreases budget, 2nat, 0nat,
    {
        match self.begin_concept(cx, path, require_dynamic) {
            None => None,
            Some(concept) => {
                let (list, seen) = self.resolve_bindings(
                    cx,
                    concept,
                    bindings,
                    path.end_span(),
                    context,
                    budget,
                );
                self.require_bound(cx, concept, &seen, require_dynamic, path.end_span());
                Some(ConceptInstance { concept, bindings: sort_bindings(&list) })
            },
        }
    }

    fn begin_concept(
        &mut self,
        cx: &Sources,
        path: &Path,
        require_dynamic: bool,
    ) -> (concept: Option<
        DefId,
    >)
        ensures
            adds_to(old(self)@.diagnostics, final(self)@.diagnostics),
            final(self)@.types == old(self)@.types,
            (final(self)@, concept) == old(self)@.begin_concept(cx, *path, require_dynamic),
    {
        proof {
            reveal(Names::begin_concept);
        }
        match &path.concept {
            Resolved::Found(concept) => match cx.program.kind(*concept) {
                Some(
                    DefinitionKind::Concept { dyn_capable, associated_types: _, requirements: _ },
                ) => {
                    if require_dynamic && !*dyn_capable {
                        self.error(
                            "DynNotDeclared",
                            Message::Path(
                                "concept `",
                                path.segments.clone(),
                                "` was not declared `dyn`",
                            ),
                            path.end_span(),
                        );
                    }
                    Some(*concept)
                },
                _ => None,
            },
            _ => {
                self.report_unresolved(path, &path.concept);
                None
            },
        }
    }

    fn resolve_bindings(
        &mut self,
        cx: &Sources,
        concept: DefId,
        bindings: &Chain<BindingRef>,
        span: Span,
        context: &TypeContext,
        budget: u32,
    ) -> (result: (Chain<AssociatedTypeBinding>, Chain<u32>))
        requires
            old(self).wf(),
        ensures
            adds_to(old(self)@.diagnostics, final(self)@.diagnostics),
            final(self).wf(),
            later(old(self)@.types, final(self)@.types),
            (final(self)@, result.0, result.1) == old(self)@.resolve_bindings(
                cx,
                concept,
                *bindings,
                span,
                *context,
                budget,
            ),
        decreases budget, 1nat, bindings.spec_len(),
    {
        match bindings {
            Chain::Empty => (Chain::new(), Chain::new()),
            Chain::Link(link) => {
                let (list, seen) = self.resolve_bindings(
                    cx,
                    concept,
                    &link.rest,
                    span,
                    context,
                    budget,
                );
                match cx.program.concept_associated_type(concept, &link.item.name) {
                    None => {
                        self.error(
                            "UnknownName",
                            Message::Name(
                                "concept has no associated type `",
                                link.item.name.clone(),
                                "`",
                            ),
                            span,
                        );
                        (list, seen)
                    },
                    Some(associated_type) => if contains_id(&seen, associated_type.0) {
                        self.error(
                            "DuplicateDeclaration",
                            Message::Name(
                                "associated type `",
                                link.item.name.clone(),
                                "` is bound more than once",
                            ),
                            span,
                        );
                        (list, seen)
                    } else {
                        let ty = self.resolve_type_ref(cx, link.item.ty, context, budget);
                        (
                            list.with(AssociatedTypeBinding { associated_type, ty }),
                            insert_id(&seen, associated_type.0),
                        )
                    },
                }
            },
        }
    }

    fn require_bound(
        &mut self,
        cx: &Sources,
        concept: DefId,
        seen: &Chain<u32>,
        require_dynamic: bool,
        span: Span,
    )
        ensures
            adds_to(old(self)@.diagnostics, final(self)@.diagnostics),
            final(self)@.types == old(self)@.types,
            final(self)@ == old(self)@.require_bound(cx, concept, *seen, require_dynamic, span),
    {
        proof {
            reveal(Names::require_bound);
        }
        match cx.program.kind(concept) {
            Some(DefinitionKind::Concept { dyn_capable: _, associated_types, requirements: _ }) => {
                if require_dynamic {
                    self.report_unbound(associated_types, seen, span);
                }
            },
            _ => {},
        }
    }

    fn report_unbound(&mut self, associated_types: &Chain<DefId>, seen: &Chain<u32>, span: Span)
        ensures
            adds_to(old(self)@.diagnostics, final(self)@.diagnostics),
            final(self)@.types == old(self)@.types,
            final(self)@ == old(self)@.report_unbound(*associated_types, *seen, span),
        decreases associated_types,
    {
        proof {
            reveal(Names::report_unbound);
        }
        match associated_types {
            Chain::Empty => {},
            Chain::Link(link) => {
                self.report_unbound(&link.rest, seen, span);
                if !contains_id(seen, link.item.0) {
                    self.error(
                        "DynAssociatedTypeUnbound",
                        Message::Definition(
                            "dyn use must bind associated type `",
                            link.item,
                            "`",
                            "<error>",
                        ),
                        span,
                    );
                }
            },
        }
    }

    /// The type of a parameter.
    pub fn resolve_parameter_type(
        &mut self,
        cx: &Sources,
        reference: TypeRefId,
        context: &TypeContext,
        budget: u32,
    ) -> (ty: TyId)
        requires
            old(self).wf(),
        ensures
            adds_to(old(self)@.diagnostics, final(self)@.diagnostics),
            final(self).wf(),
            later(old(self)@.types, final(self)@.types),
            (final(self)@, ty) == old(self)@.resolve_parameter_type(
                cx,
                reference,
                *context,
                budget,
            ),
    {
        match get(&cx.program.type_refs, reference.0) {
            None => TyId(0),
            Some(source) => match find_interface(&source.kind) {
                Some((path, bindings)) => {
                    let ty = match self.resolve_concept_ref(
                        cx,
                        path,
                        &bindings,
                        context,
                        true,
                        budget,
                    ) {
                        Some(target) => self.dynamic_view_type(cx.program, target),
                        None => TyId(0),
                    };
                    self.record(reference, ty);
                    ty
                },
                None => self.resolve_type_ref(cx, reference, context, budget),
            },
        }
    }
}

} // verus!
