//! What a call or a constructor reaches, decided before its arguments are
//! looked at.

use vstd::prelude::*;

use crate::calls::{instantiate_concept_signature, is_mutating, primitive_builtin};
#[allow(unused_imports)]
use crate::calls::{builtin_of, signature_instantiated, takes_mutable};
use crate::chain::Chain;
use crate::conformance::Goal;
#[allow(unused_imports)]
use crate::diagnostics::{adds_to, lemma_adds_nothing, lemma_adds_one, lemma_adds_through};
use crate::diagnostics::Message;
#[allow(unused_imports)]
use crate::growth::{later, lemma_later_itself, lemma_later_through};
use crate::hir::{text_is, ConceptRef, DefinitionKind, Expr, ExprKind, Resolved, Segment};
use crate::ids::{DefId, TyId, TypeRefId};
use crate::lookup::{find_task_intrinsic, resolve_qualified_variant};
#[allow(unused_imports)]
use crate::lookup::{qualified_variant, task_intrinsic};
use crate::methods::PlannedCall;
use crate::semantics::{
    BuiltinValue, CallTarget, CallableSignature, Signature, TaskIntrinsic,
};
use crate::state::{BodyChecker, Context, ValuePathLookup};
#[allow(unused_imports)]
use crate::state::World;
use crate::substitution::Substitution;
use crate::ty::{ConceptInstance, TyData};
#[allow(unused_imports)]
use crate::ty::error_ty;

verus! {

broadcast use {
    lemma_adds_nothing,
    lemma_adds_one,
    lemma_adds_through,
    lemma_later_itself,
    lemma_later_through,
};

/// What a call by name reaches.
pub enum CallPlan {
    /// The callee is no name.
    Unnamed,
    Collection { is_list: bool },
    Builtin(BuiltinValue),
    Function { definition: DefId, signature: CallableSignature },
    /// A value that is no function.
    NotCallable,
    Refined { definition: DefId, base: TypeRefId },
    Unknown(Chain<Segment>),
}

/// What a method call on a name reaches.
#[derive(Clone, Copy, Debug, PartialEq, Eq, Structural)]
pub enum StaticPlan {
    Variant { variant: DefId, owner: DefId },
    Task(TaskIntrinsic),
    PathFromText,
    /// A method of the value that the receiver denotes.
    Value,
}

/// The builtin constructor with a name.
pub open spec fn constructor_named(name: Seq<char>) -> Option<BuiltinValue> {
    if name == "Some"@ {
        Some(BuiltinValue::OptionSome)
    } else if name == "Ok"@ {
        Some(BuiltinValue::ResultOk)
    } else if name == "Err"@ {
        Some(BuiltinValue::ResultErr)
    } else {
        None
    }
}

fn find_constructor(name: &String) -> (builtin: Option<BuiltinValue>)
    ensures
        builtin == constructor_named(name@),
{
    if text_is(name, "Some") {
        Some(BuiltinValue::OptionSome)
    } else if text_is(name, "Ok") {
        Some(BuiltinValue::ResultOk)
    } else if text_is(name, "Err") {
        Some(BuiltinValue::ResultErr)
    } else {
        None
    }
}

/// What a call reaches through the definitions of the program.
pub open spec fn definition_plan(
    cx: &Context,
    value: Resolved,
    ty: Resolved,
    path: Chain<Segment>,
) -> CallPlan {
    match value {
        Resolved::Found(definition) => match cx.signature_of(definition) {
            Some(Signature::Callable(signature)) => CallPlan::Function { definition, signature },
            _ => CallPlan::NotCallable,
        },
        _ => match ty {
            Resolved::Found(definition) => match cx.program.kind_of(definition) {
                Some(DefinitionKind::RefinedType { base, predicate: _ }) => CallPlan::Refined {
                    definition,
                    base,
                },
                _ => CallPlan::Unknown(path),
            },
            _ => CallPlan::Unknown(path),
        },
    }
}

fn plan_definition(cx: &Context, value: &Resolved, ty: &Resolved, path: &Chain<Segment>) -> (plan:
    CallPlan)
    ensures
        plan == definition_plan(cx, *value, *ty, *path),
{
    match value {
        Resolved::Found(definition) => match cx.signature(*definition) {
            Some(Signature::Callable(signature)) => CallPlan::Function {
                definition: *definition,
                signature: signature.clone(),
            },
            _ => CallPlan::NotCallable,
        },
        _ => match ty {
            Resolved::Found(definition) => match cx.program.kind(*definition) {
                Some(DefinitionKind::RefinedType { base, predicate: _ }) => CallPlan::Refined {
                    definition: *definition,
                    base: *base,
                },
                _ => CallPlan::Unknown(path.clone()),
            },
            _ => CallPlan::Unknown(path.clone()),
        },
    }
}

/// The first argument of a call.
pub open spec fn first_of(arguments: Chain<Expr>) -> Option<Expr>
    decreases arguments,
{
    match arguments {
        Chain::Empty => None,
        Chain::Link(link) => if link.rest is Empty {
            Some(link.item)
        } else {
            first_of(link.rest)
        },
    }
}

pub(crate) fn find_first<'a>(arguments: &'a Chain<Expr>) -> (first: Option<&'a Expr>)
    ensures
        match first {
            Some(found) => first_of(*arguments) == Some(*found),
            None => first_of(*arguments) is None,
        },
    decreases arguments,
{
    match arguments {
        Chain::Empty => None,
        Chain::Link(link) => if link.rest.is_empty() {
            Some(&link.item)
        } else {
            find_first(&link.rest)
        },
    }
}

impl World {
    /// What the call of `callee` reaches.
    #[verifier::opaque]
    pub open spec fn call_plan(self, cx: &Context, callee: Expr) -> CallPlan {
        match callee.kind {
            ExprKind::Path(path) => match path.single() {
                Some(segment) => if segment.name@ == "List"@ {
                    CallPlan::Collection { is_list: true }
                } else if segment.name@ == "TextMap"@ {
                    CallPlan::Collection { is_list: false }
                } else {
                    match self.primitive_call(cx, path) {
                        Some(primitive) => CallPlan::Builtin(builtin_of(primitive)),
                        None => match constructor_named(segment.name@) {
                            Some(builtin) => CallPlan::Builtin(builtin),
                            None => definition_plan(cx, path.value, path.ty, path.segments),
                        },
                    }
                },
                None => definition_plan(cx, path.value, path.ty, path.segments),
            },
            _ => CallPlan::Unnamed,
        }
    }

    /// What the call of a method on `receiver` reaches.
    #[verifier::opaque]
    pub open spec fn static_plan(
        self,
        cx: &Context,
        receiver: Expr,
        method: Seq<char>,
    ) -> StaticPlan {
        match receiver.kind {
            ExprKind::Path(path) => if self.value_path_lookup(cx, path)
                == ValuePathLookup::Missing {
                match qualified_variant(cx, path, method) {
                    Some((variant, owner)) => StaticPlan::Variant { variant, owner },
                    None => match (self.names_task_namespace(cx, path), task_intrinsic(method)) {
                        (true, Some(intrinsic)) => StaticPlan::Task(intrinsic),
                        _ => match path.single() {
                            Some(segment) => if segment.name@ == "Path"@ && method
                                == "from_text"@ {
                                StaticPlan::PathFromText
                            } else {
                                StaticPlan::Value
                            },
                            None => StaticPlan::Value,
                        },
                    },
                }
            } else {
                StaticPlan::Value
            },
            _ => StaticPlan::Value,
        }
    }

    /// The variant that a field access on a type name denotes.
    #[verifier::opaque]
    pub open spec fn named_variant(self, cx: &Context, receiver: Expr, name: Seq<char>) -> Option<
        (DefId, DefId),
    > {
        match receiver.kind {
            ExprKind::Path(path) => if self.value_path_lookup(cx, path)
                == ValuePathLookup::Missing {
                qualified_variant(cx, path, name)
            } else {
                None
            },
            _ => None,
        }
    }

    /// A variant that is written without arguments.
    #[verifier::opaque]
    pub open spec fn bare_variant(
        self,
        cx: &Context,
        e: Expr,
        variant: DefId,
        owner: DefId,
        expected: Option<TyId>,
    ) -> (World, TyId) {
        match self.begin_variant(
            cx,
            e,
            variant,
            owner,
            false,
            Chain::Empty,
            Chain::Empty,
            expected,
        ) {
            (w, Some(call)) => w.end_variant(
                cx,
                e,
                variant,
                owner,
                Chain::Empty,
                Chain::Empty,
                call.substitution,
            ),
            (w, None) => (w, error_ty()),
        }
    }

    /// The type of the payload of `Ok` or `Err`.
    #[verifier::opaque]
    pub open spec fn result_payload(
        self,
        e: Expr,
        builtin: BuiltinValue,
        expected: Option<TyId>,
    ) -> (
        World,
        Option<TyId>,
    ) {
        match expected {
            None => (
                self.text_error(
                    "CannotInferType",
                    "Ok/Err require an expected Result type",
                    e.span,
                ),
                None,
            ),
            Some(result) => match self.data(result) {
                TyData::Result { ok, error } => (
                    self,
                    Some(
                        if builtin == BuiltinValue::ResultOk {
                            ok
                        } else {
                            error
                        },
                    ),
                ),
                _ => (
                    self.text_error(
                        "TypeMismatch",
                        "Ok/Err require an expected Result type",
                        e.span,
                    ),
                    None,
                ),
            },
        }
    }

    /// The type of an empty list.
    #[verifier::opaque]
    pub open spec fn empty_list(self, e: Expr, element: Option<TyId>) -> (World, TyId) {
        match element {
            Some(ty) => self.intern(TyData::List(ty)),
            None => self.text_error(
                "CannotInferListElement",
                "an empty list literal requires an expected List[T] type",
                e.span,
            ).intern(TyData::List(error_ty())),
        }
    }

    pub open spec fn option_element(self, expected: Option<TyId>) -> Option<TyId> {
        match expected {
            Some(ty) => match self.data(ty) {
                TyData::Option(element) => Some(element),
                _ => None,
            },
            None => None,
        }
    }

    pub open spec fn list_element(self, expected: Option<TyId>) -> Option<TyId> {
        match expected {
            Some(ty) => match self.data(ty) {
                TyData::List(element) => Some(element),
                _ => None,
            },
            None => None,
        }
    }

    /// The types of the elements that a tuple of that many is expected to
    /// have.
    pub open spec fn tuple_elements<A>(self, elements: Chain<A>, expected: Option<TyId>) -> Option<
        Chain<TyId>,
    > {
        match expected {
            Some(ty) => match self.data(ty) {
                TyData::Tuple(types) => if types.spec_len() == elements.spec_len() {
                    Some(types)
                } else {
                    None
                },
                _ => None,
            },
            None => None,
        }
    }

    /// The method of a written concept that a call names.
    #[verifier::opaque]
    pub open spec fn plan_qualified(
        self,
        cx: &Context,
        e: Expr,
        self_ty: TyId,
        concept: ConceptRef,
        method: String,
    ) -> (World, Option<PlannedCall>) {
        match self.resolve_written_concept(cx, concept) {
            (w, None) => (w, None),
            (w, Some(instance)) => match cx.program.requirement_named(instance.concept, method@) {
                None => (
                    w.error(
                        "UnknownName",
                        Message::Name("concept has no method `", method, "`"),
                        e.span,
                    ),
                    None,
                ),
                Some(requirement) => match w.solve_witness(
                    cx,
                    Goal { self_ty, concept: instance },
                    e.span,
                ) {
                    (w, None) => (w, None),
                    (w, Some(witness)) => match signature_instantiated(
                        cx,
                        w.types,
                        requirement,
                        self_ty,
                        ConceptInstance {
                            concept: instance.concept,
                            bindings: witness.associated_types,
                        },
                    ) {
                        (types, None) => (World { types, ..w }, None),
                        (types, Some(signature)) => (
                            World { types, ..w },
                            Some(
                                PlannedCall {
                                    signature,
                                    target: CallTarget::StaticConcept { requirement },
                                    witness: Some(witness),
                                    substitution: Substitution::empty(),
                                },
                            ),
                        ),
                    },
                },
            },
        }
    }

    /// The receiver of a qualified call is handed over.
    #[verifier::opaque]
    pub open spec fn hand_receiver(
        self,
        cx: &Context,
        receiver: Expr,
        self_ty: TyId,
        plan: PlannedCall,
    ) -> World {
        let w = self.require_mutable(
            receiver,
            takes_mutable(plan.signature),
            "qualified mut self call requires a mutable receiver place",
        );
        match (plan.target, plan.witness) {
            (CallTarget::StaticConcept { requirement }, Some(witness)) => {
                let w = w.reject_explicit_dispose_call(cx, requirement, receiver.span);
                let (w, declared) = w.witness_declares_task_receiver(cx, witness);
                w.transfer_task_receiver(
                    cx,
                    receiver,
                    self_ty,
                    declared,
                    plan.signature.is_async,
                )
            },
            _ => w,
        }
    }
}

impl BodyChecker {
    pub fn plan_call(&self, cx: &Context, callee: &Expr) -> (plan: CallPlan)
        requires
            self.wf(),
        ensures
            plan == self@.call_plan(cx, *callee),
    {
        proof {
            reveal(World::call_plan);
        }
        match &callee.kind {
            ExprKind::Path(path) => match path.only_segment() {
                Some(segment) => if text_is(&segment.name, "List") {
                    CallPlan::Collection { is_list: true }
                } else if text_is(&segment.name, "TextMap") {
                    CallPlan::Collection { is_list: false }
                } else {
                    match self.compiler_std_primitive_call(cx, path) {
                        Some(primitive) => CallPlan::Builtin(primitive_builtin(primitive)),
                        None => match find_constructor(&segment.name) {
                            Some(builtin) => CallPlan::Builtin(builtin),
                            None => plan_definition(cx, &path.value, &path.ty, &path.segments),
                        },
                    }
                },
                None => plan_definition(cx, &path.value, &path.ty, &path.segments),
            },
            _ => CallPlan::Unnamed,
        }
    }

    pub fn plan_static(&self, cx: &Context, receiver: &Expr, method: &String) -> (plan: StaticPlan)
        requires
            self.wf(),
        ensures
            plan == self@.static_plan(cx, *receiver, method@),
    {
        proof {
            reveal(World::static_plan);
        }
        match &receiver.kind {
            ExprKind::Path(path) => if self.value_path_lookup(cx, path)
                == ValuePathLookup::Missing {
                match resolve_qualified_variant(cx, path, method) {
                    Some((variant, owner)) => StaticPlan::Variant { variant, owner },
                    None => match (
                        self.resolves_task_intrinsic_namespace(cx, path),
                        find_task_intrinsic(method),
                    ) {
                        (true, Some(intrinsic)) => StaticPlan::Task(intrinsic),
                        _ => match path.only_segment() {
                            Some(segment) => if text_is(&segment.name, "Path") && text_is(
                                method,
                                "from_text",
                            ) {
                                StaticPlan::PathFromText
                            } else {
                                StaticPlan::Value
                            },
                            None => StaticPlan::Value,
                        },
                    },
                }
            } else {
                StaticPlan::Value
            },
            _ => StaticPlan::Value,
        }
    }

    pub fn find_named_variant(&self, cx: &Context, receiver: &Expr, name: &String) -> (result:
        Option<(DefId, DefId)>)
        requires
            self.wf(),
        ensures
            result == self@.named_variant(cx, *receiver, name@),
    {
        proof {
            reveal(World::named_variant);
        }
        match &receiver.kind {
            ExprKind::Path(path) => if self.value_path_lookup(cx, path)
                == ValuePathLookup::Missing {
                resolve_qualified_variant(cx, path, name)
            } else {
                None
            },
            _ => None,
        }
    }

    pub fn bare_variant(
        &mut self,
        cx: &Context,
        e: &Expr,
        variant: DefId,
        owner: DefId,
        expected: Option<TyId>,
    ) -> (ty: TyId)
        requires
            old(self).wf(),
        ensures
            adds_to(old(self)@.st.diagnostics, final(self)@.st.diagnostics),
            final(self).wf(),
            later(old(self)@.types, final(self)@.types),
            (final(self)@, ty) == old(self)@.bare_variant(cx, *e, variant, owner, expected),
    {
        proof {
            reveal(World::bare_variant);
        }
        match self.begin_variant(
            cx,
            e,
            variant,
            owner,
            false,
            &Chain::new(),
            &Chain::new(),
            expected,
        ) {
            Some(call) => self.end_variant(
                cx,
                e,
                variant,
                owner,
                &Chain::new(),
                &Chain::new(),
                call.substitution,
            ),
            None => TyId(0),
        }
    }

    pub fn result_payload(
        &mut self,
        e: &Expr,
        builtin: BuiltinValue,
        expected: Option<TyId>,
    ) -> (payload:
        Option<TyId>)
        requires
            old(self).wf(),
        ensures
            adds_to(old(self)@.st.diagnostics, final(self)@.st.diagnostics),
            final(self)@.types == old(self)@.types,
            (final(self)@, payload) == old(self)@.result_payload(*e, builtin, expected),
    {
        proof {
            reveal(World::result_payload);
        }
        match expected {
            None => {
                self.text_error(
                    "CannotInferType",
                    "Ok/Err require an expected Result type",
                    e.span,
                );
                None
            },
            Some(result) => match self.data(result) {
                TyData::Result { ok, error } => Some(
                    if builtin == BuiltinValue::ResultOk {
                        ok
                    } else {
                        error
                    },
                ),
                _ => {
                    self.text_error(
                        "TypeMismatch",
                        "Ok/Err require an expected Result type",
                        e.span,
                    );
                    None
                },
            },
        }
    }

    pub fn empty_list(&mut self, e: &Expr, element: Option<TyId>) -> (ty: TyId)
        requires
            old(self).wf(),
        ensures
            adds_to(old(self)@.st.diagnostics, final(self)@.st.diagnostics),
            final(self).wf(),
            later(old(self)@.types, final(self)@.types),
            (final(self)@, ty) == old(self)@.empty_list(*e, element),
    {
        proof {
            reveal(World::empty_list);
        }
        match element {
            Some(ty) => self.intern(TyData::List(ty)),
            None => {
                self.text_error(
                    "CannotInferListElement",
                    "an empty list literal requires an expected List[T] type",
                    e.span,
                );
                self.intern(TyData::List(TyId(0)))
            },
        }
    }

    pub fn option_element(&self, expected: Option<TyId>) -> (element: Option<TyId>)
        requires
            self.wf(),
        ensures
            element == self@.option_element(expected),
    {
        match expected {
            Some(ty) => match self.data(ty) {
                TyData::Option(element) => Some(element),
                _ => None,
            },
            None => None,
        }
    }

    pub fn list_element(&self, expected: Option<TyId>) -> (element: Option<TyId>)
        requires
            self.wf(),
        ensures
            element == self@.list_element(expected),
    {
        match expected {
            Some(ty) => match self.data(ty) {
                TyData::List(element) => Some(element),
                _ => None,
            },
            None => None,
        }
    }

    pub fn tuple_elements<A>(&self, elements: &Chain<A>, expected: Option<TyId>) -> (types: Option<
        Chain<TyId>,
    >)
        requires
            self.wf(),
        ensures
            types == self@.tuple_elements(*elements, expected),
    {
        match expected {
            Some(ty) => match self.data(ty) {
                TyData::Tuple(types) => if crate::chain::same_length(&types, elements) {
                    Some(types)
                } else {
                    None
                },
                _ => None,
            },
            None => None,
        }
    }

    pub fn plan_qualified(
        &mut self,
        cx: &Context,
        e: &Expr,
        self_ty: TyId,
        concept: &ConceptRef,
        method: &String,
    ) -> (plan: Option<PlannedCall>)
        requires
            old(self).wf(),
        ensures
            adds_to(old(self)@.st.diagnostics, final(self)@.st.diagnostics),
            final(self).wf(),
            later(old(self)@.types, final(self)@.types),
            (final(self)@, plan) == old(self)@.plan_qualified(cx, *e, self_ty, *concept, *method),
    {
        proof {
            reveal(World::plan_qualified);
        }
        match self.resolve_written_concept(cx, concept) {
            None => None,
            Some(instance) => match cx.program.concept_method(instance.concept, method) {
                None => {
                    self.error(
                        "UnknownName",
                        Message::Name("concept has no method `", method.clone(), "`"),
                        e.span,
                    );
                    None
                },
                Some(requirement) => match self.solve_witness(
                    cx,
                    &Goal { self_ty, concept: instance.clone() },
                    e.span,
                ) {
                    None => None,
                    Some(witness) => {
                        let settled = ConceptInstance {
                            concept: instance.concept,
                            bindings: witness.associated_types.clone(),
                        };
                        match instantiate_concept_signature(
                            cx,
                            &mut self.types,
                            requirement,
                            self_ty,
                            &settled,
                        ) {
                            None => None,
                            Some(signature) => Some(
                                PlannedCall {
                                    signature,
                                    target: CallTarget::StaticConcept { requirement },
                                    witness: Some(witness),
                                    substitution: Substitution::default(),
                                },
                            ),
                        }
                    },
                },
            },
        }
    }

    pub fn hand_receiver(
        &mut self,
        cx: &Context,
        receiver: &Expr,
        self_ty: TyId,
        plan: &PlannedCall,
    )
        requires
            old(self).wf(),
        ensures
            adds_to(old(self)@.st.diagnostics, final(self)@.st.diagnostics),
            final(self).wf(),
            later(old(self)@.types, final(self)@.types),
            final(self)@ == old(self)@.hand_receiver(cx, *receiver, self_ty, *plan),
    {
        proof {
            reveal(World::hand_receiver);
        }
        self.require_mutable(
            receiver,
            is_mutating(&plan.signature),
            "qualified mut self call requires a mutable receiver place",
        );
        match (&plan.target, &plan.witness) {
            (CallTarget::StaticConcept { requirement }, Some(witness)) => {
                self.reject_explicit_dispose_call(cx, *requirement, receiver.span);
                let declared = self.witness_declares_task_receiver(cx, witness);
                self.transfer_task_receiver(
                    cx,
                    receiver,
                    self_ty,
                    declared,
                    plan.signature.is_async,
                );
            },
            _ => {},
        }
    }
}

} // verus!
