//! Values of enums and records: the steps of checking how they are made that
//! look at no further expression.

use vstd::prelude::*;

use crate::calls::{check_behind, Actual};
#[allow(unused_imports)]
use crate::calls::is_behind;
use crate::chain::Chain;
#[allow(unused_imports)]
use crate::diagnostics::{adds_to, lemma_adds_nothing, lemma_adds_one, lemma_adds_through};
use crate::diagnostics::{Diagnostic, Message};
#[allow(unused_imports)]
use crate::diagnostics::labelled;
use crate::entry::find_value;
#[allow(unused_imports)]
use crate::entry::value_by_id;
#[allow(unused_imports)]
use crate::growth::{later, lemma_later_itself, lemma_later_through};
use crate::hir::{DefinitionKind, Expr, Path, Program, RecordFieldValue};
use crate::ids::{DefId, ExprId, GenericParamId, Span, TyId, TypeRefId};
use crate::lookup::{find_record, nominal_self_type};
#[allow(unused_imports)]
use crate::lookup::{nominal_self, record_named};
use crate::semantics::{CallResolution, CallTarget, ConstructionCheck, Signature};
use crate::state::{BodyChecker, Context};
#[allow(unused_imports)]
use crate::state::World;
use crate::substitution::Substitution;
use crate::symbolic::ProofResult;
use crate::ty::{BuiltinType, TyData};
#[allow(unused_imports)]
use crate::ty::{builtin_ty, error_ty};
use crate::unify::{longer, pair_params, unify_type};
#[allow(unused_imports)]
use crate::unify::{paired, unified};

verus! {

broadcast use {
    lemma_adds_nothing,
    lemma_adds_one,
    lemma_adds_through,
    lemma_later_itself,
    lemma_later_through,
};

/// A variant that is constructed, before its payload is checked.
pub struct VariantCall {
    pub payload: Chain<TyId>,
    pub substitution: Substitution,
}

/// A record that is constructed, before its fields are checked.
pub struct RecordStart {
    pub definition: DefId,
    pub generic_params: Chain<GenericParamId>,
    pub fields: Chain<DefId>,
    pub has_invariant: bool,
    pub substitution: Substitution,
}

/// A field of a record that is constructed, before its value is checked.
#[derive(Clone, Copy, Debug, PartialEq, Eq, Structural)]
pub struct FieldStart {
    pub declared: TyId,
    pub expected: Option<TyId>,
}

/// A field of a record that is constructed, with its value.
#[derive(Clone, Copy, Debug, PartialEq, Eq, Structural)]
pub struct FieldActual {
    pub field: DefId,
    pub value: ExprId,
    pub types: Actual,
}

/// The last value that is written for a field name.
pub open spec fn value_named(values: Chain<RecordFieldValue>, name: Seq<char>) -> Option<
    RecordFieldValue,
>
    decreases values,
{
    match values {
        Chain::Empty => None,
        Chain::Link(link) => if link.item.name@ == name {
            Some(link.item)
        } else {
            value_named(link.rest, name)
        },
    }
}

fn find_value_named<'a>(values: &'a Chain<RecordFieldValue>, name: &String) -> (value: Option<
    &'a RecordFieldValue,
>)
    ensures
        match value {
            Some(found) => value_named(*values, name@) == Some(*found),
            None => value_named(*values, name@) is None,
        },
    decreases values,
{
    match values {
        Chain::Empty => None,
        Chain::Link(link) => if link.item.name == *name {
            Some(&link.item)
        } else {
            find_value_named(&link.rest, name)
        },
    }
}

/// The name of a declared field. A field without one is called `<error>`.
pub open spec fn field_name(program: &Program, field: DefId) -> Seq<char> {
    match program.name_of(field) {
        Some(name) => name@,
        None => "<error>"@,
    }
}

pub(crate) fn make_field_name(program: &Program, field: DefId) -> (name: String)
    ensures
        name@ == field_name(program, field),
{
    match program.definition_name(field) {
        Some(name) => name.clone(),
        None => "<error>".to_owned(),
    }
}

/// One of the declared fields has the name.
pub open spec fn declares_field(
    program: &Program,
    fields: Chain<DefId>,
    name: Seq<char>,
) -> bool
    decreases fields,
{
    match fields {
        Chain::Empty => false,
        Chain::Link(link) => field_name(program, link.item) == name || declares_field(
            program,
            link.rest,
            name,
        ),
    }
}

fn check_declares_field(program: &Program, fields: &Chain<DefId>, name: &String) -> (result: bool)
    ensures
        result == declares_field(program, *fields, name@),
    decreases fields,
{
    match fields {
        Chain::Empty => false,
        Chain::Link(link) => make_field_name(program, link.item) == *name || check_declares_field(
            program,
            &link.rest,
            name,
        ),
    }
}

/// The fields with the expressions that are their values.
pub open spec fn canonical(list: Chain<FieldActual>) -> Chain<(DefId, ExprId)>
    decreases list,
{
    match list {
        Chain::Empty => Chain::Empty,
        Chain::Link(link) => canonical(link.rest).pushed((link.item.field, link.item.value)),
    }
}

fn canonical_fields(list: &Chain<FieldActual>) -> (fields: Chain<(DefId, ExprId)>)
    ensures
        fields == canonical(*list),
    decreases list,
{
    match list {
        Chain::Empty => Chain::new(),
        Chain::Link(link) => canonical_fields(&link.rest).with(
            (link.item.field, link.item.value),
        ),
    }
}

/// What is said where a value of a resource type is written out.
pub open spec fn protected_record(cx: &Context, definition: DefId) -> Option<&'static str> {
    if cx.canonical_std_items.file == Some(definition) {
        Some("std.file.File values cannot be constructed directly")
    } else if cx.canonical_std_items.io_error == Some(definition) {
        Some("std.io.IoError values cannot be constructed directly")
    } else if cx.canonical_std_items.socket == Some(definition) {
        Some("std.net.Socket values cannot be constructed directly")
    } else {
        None
    }
}

fn find_protected(cx: &Context, definition: DefId) -> (text: Option<&'static str>)
    ensures
        text == protected_record(cx, definition),
{
    if cx.canonical_std_items.file == Some(definition) {
        Some("std.file.File values cannot be constructed directly")
    } else if cx.canonical_std_items.io_error == Some(definition) {
        Some("std.io.IoError values cannot be constructed directly")
    } else if cx.canonical_std_items.socket == Some(definition) {
        Some("std.net.Socket values cannot be constructed directly")
    } else {
        None
    }
}

impl World {
    /// The type arguments that a constructor settled; each that it left open
    /// is reported.
    #[verifier::opaque]
    pub open spec fn inferred_arguments(
        self,
        span: Span,
        parameters: Chain<GenericParamId>,
        substitution: Substitution,
        of_record: bool,
    ) -> (World, Chain<TyId>)
        decreases parameters,
    {
        match parameters {
            Chain::Empty => (self, Chain::Empty),
            Chain::Link(link) => {
                let (w, list) = self.inferred_arguments(span, link.rest, substitution, of_record);
                match substitution.lookup(link.item) {
                    Some(argument) => (w, list.pushed(argument)),
                    None => (
                        w.error(
                            "CannotInferType",
                            if of_record {
                                Message::GenericParam(
                                    "cannot infer record parameter `",
                                    link.item,
                                    "`",
                                )
                            } else {
                                Message::Text("cannot infer enum type arguments")
                            },
                            span,
                        ),
                        list.pushed(error_ty()),
                    ),
                }
            },
        }
    }

    /// A variant is about to be constructed, by a call or by its name alone.
    #[verifier::opaque]
    pub open spec fn begin_variant(
        self,
        cx: &Context,
        e: Expr,
        variant: DefId,
        owner: DefId,
        called: bool,
        type_arguments: Chain<TypeRefId>,
        arguments: Chain<Expr>,
        expected: Option<TyId>,
    ) -> (World, Option<VariantCall>) {
        match cx.signature_of(variant) {
            Some(Signature::Variant { owner: _, payload }) => {
                let generic_params = cx.program.type_params_of(owner);
                let called_value = payload is Empty && called;
                let w = if called_value {
                    self.text_error("TypeMismatch", "value constructor is not callable", e.span)
                } else {
                    self
                };
                let (w, explicit) = w.resolve_written_types(cx, type_arguments);
                let w = if !called_value && explicit.spec_len() > generic_params.spec_len() {
                    w.text_error("TypeMismatch", "too many explicit generic arguments", e.span)
                } else {
                    w
                };
                let substitution = paired(generic_params, explicit, Substitution::empty());
                let (w, substitution) = w.unified_with(cx, owner, expected, substitution);
                let w = if called_value {
                    w
                } else {
                    w.check_arity(e.span, payload, arguments)
                };
                (w, Some(VariantCall { payload, substitution }))
            },
            _ => (self, None),
        }
    }

    /// What an expected type says of the type arguments of a definition.
    #[verifier::opaque]
    pub open spec fn unified_with(
        self,
        cx: &Context,
        definition: DefId,
        expected: Option<TyId>,
        substitution: Substitution,
    ) -> (World, Substitution) {
        match expected {
            Some(expected) => {
                let (types, pattern) = nominal_self(cx.program, self.types, definition);
                (
                    World { types, ..self },
                    unified(types, pattern, expected, substitution).0,
                )
            },
            None => (self, substitution),
        }
    }

    /// The arguments are adapted to the types that they turned out to have.
    #[verifier::opaque]
    pub open spec fn coerce_payload(
        self,
        cx: &Context,
        arguments: Chain<Expr>,
        actuals: Chain<Actual>,
        substitution: Substitution,
    ) -> World
        decreases arguments,
    {
        match arguments {
            Chain::Empty => self,
            Chain::Link(link) => if is_behind(link.rest, false, actuals) {
                self.coerce_payload(cx, link.rest, actuals, substitution)
            } else {
                match actuals {
                    Chain::Empty => self,
                    Chain::Link(types) => {
                        let w = self.coerce_payload(cx, link.rest, types.rest, substitution);
                        let (w, expected) = w.substitute(types.item.declared, substitution);
                        w.coerce(cx, link.item, types.item.actual, expected).0
                    },
                }
            },
        }
    }

    #[verifier::opaque]
    pub open spec fn end_variant(
        self,
        cx: &Context,
        e: Expr,
        variant: DefId,
        owner: DefId,
        arguments: Chain<Expr>,
        actuals: Chain<Actual>,
        substitution: Substitution,
    ) -> (World, TyId) {
        let (w, type_arguments) = self.inferred_arguments(
            e.span,
            cx.program.type_params_of(owner),
            substitution,
            false,
        );
        let w = w.coerce_payload(cx, arguments, actuals, substitution);
        let (w, result) = w.intern(
            TyData::Nominal { definition: owner, arguments: type_arguments },
        );
        (
            w.set_call(
                e.id,
                CallResolution {
                    target: CallTarget::EnumVariant(variant),
                    substitution,
                    dispatch_witness: None,
                    witnesses: Chain::Empty,
                    receiver: None,
                },
            ),
            result,
        )
    }

    /// Each value that repeats a field name is reported.
    #[verifier::opaque]
    pub open spec fn report_repeated(self, values: Chain<RecordFieldValue>) -> World
        decreases values,
    {
        match values {
            Chain::Empty => self,
            Chain::Link(link) => {
                let w = self.report_repeated(link.rest);
                match value_named(link.rest, link.item.name@) {
                    Some(previous) => w.report(
                        labelled(
                            "DuplicateField",
                            Message::Name(
                                "field `",
                                link.item.name,
                                "` is supplied more than once",
                            ),
                            link.item.span,
                            previous.span,
                            "first value",
                        ),
                    ),
                    None => w,
                }
            },
        }
    }

    /// A record literal is about to be checked.
    #[verifier::opaque]
    pub open spec fn begin_record(
        self,
        cx: &Context,
        e: Expr,
        path: Path,
        values: Chain<RecordFieldValue>,
        expected: Option<TyId>,
    ) -> (World, Option<RecordStart>) {
        match record_named(cx, path) {
            None => (
                self.error(
                    "UnknownName",
                    Message::Path("unknown record `", path.segments, "`"),
                    e.span,
                ),
                None,
            ),
            Some(definition) => match cx.program.kind_of(definition) {
                Some(DefinitionKind::Record { generic_params, fields, invariant_body }) =>
                    match protected_record(cx, definition) {
                        Some(text) => (self.text_error("TypeMismatch", text, e.span), None),
                        None => {
                            let (w, substitution) = self.unified_with(
                                cx,
                                definition,
                                expected,
                                Substitution::empty(),
                            );
                            (
                                w.report_repeated(values),
                                Some(
                                    RecordStart {
                                        definition,
                                        generic_params,
                                        fields,
                                        has_invariant: invariant_body is Some,
                                        substitution,
                                    },
                                ),
                            )
                        },
                    },
                _ => (
                    self.text_error("TypeMismatch", "literal target is not a record", e.span),
                    None,
                ),
            },
        }
    }

    /// A declared field is about to get its value. The declared fields before
    /// it have taken theirs.
    #[verifier::opaque]
    pub open spec fn begin_field(
        self,
        cx: &Context,
        e: Expr,
        field: DefId,
        before: Chain<DefId>,
        values: Chain<RecordFieldValue>,
        substitution: Substitution,
    ) -> (World, Option<FieldStart>) {
        let name = field_name(cx.program, field);
        let supplied = value_named(values, name) is Some && !declares_field(
            cx.program,
            before,
            name,
        );
        if !supplied {
            (
                self.error(
                    "MissingField",
                    Message::Definition("missing field `", field, "`", "<error>"),
                    e.span,
                ),
                None,
            )
        } else {
            match cx.signature_of(field) {
                Some(Signature::Field { owner: _, ty }) => {
                    let (w, expected) = self.prepare_argument(ty, substitution, false);
                    (w, Some(FieldStart { declared: ty, expected }))
                },
                _ => (self, None),
            }
        }
    }

    /// The values whose names no declared field has are reported, each name
    /// once.
    #[verifier::opaque]
    pub open spec fn report_unknown(
        self,
        cx: &Context,
        declared: Chain<DefId>,
        values: Chain<RecordFieldValue>,
        all: Chain<RecordFieldValue>,
    ) -> World
        decreases values,
    {
        match values {
            Chain::Empty => self,
            Chain::Link(link) => {
                let w = self.report_unknown(cx, declared, link.rest, all);
                let last = match value_named(all, link.item.name@) {
                    Some(found) => found.value.id == link.item.value.id,
                    None => false,
                };
                if last && !declares_field(cx.program, declared, link.item.name@) {
                    w.error(
                        "UnknownField",
                        Message::Name("record has no field `", link.item.name, "`"),
                        link.item.span,
                    )
                } else {
                    w
                }
            },
        }
    }

    #[verifier::opaque]
    pub open spec fn coerce_fields(
        self,
        cx: &Context,
        values: Chain<RecordFieldValue>,
        list: Chain<FieldActual>,
        substitution: Substitution,
    ) -> World
        decreases list,
    {
        match list {
            Chain::Empty => self,
            Chain::Link(link) => {
                let w = self.coerce_fields(cx, values, link.rest, substitution);
                let (w, expected) = w.substitute(link.item.types.declared, substitution);
                match value_by_id(values, link.item.value) {
                    Some(value) => w.coerce(cx, value, link.item.types.actual, expected).0,
                    None => w,
                }
            },
        }
    }

    #[verifier::opaque]
    pub open spec fn consume_fields(
        self,
        cx: &Context,
        values: Chain<RecordFieldValue>,
        list: Chain<FieldActual>,
    ) -> World
        decreases list,
    {
        match list {
            Chain::Empty => self,
            Chain::Link(link) => {
                let w = self.consume_fields(cx, values, link.rest);
                match value_by_id(values, link.item.value) {
                    Some(value) => w.consume_task_obligation(cx, value),
                    None => w,
                }
            },
        }
    }

    /// The fields of a record literal are checked. An invariant that is not
    /// proved is checked when the program runs, and may fail there.
    #[verifier::opaque]
    pub open spec fn end_record(
        self,
        cx: &Context,
        e: Expr,
        start: RecordStart,
        values: Chain<RecordFieldValue>,
        list: Chain<FieldActual>,
        substitution: Substitution,
    ) -> (World, TyId) {
        let w = self.report_unknown(cx, start.fields, values, values);
        let (w, arguments) = w.inferred_arguments(
            e.span,
            start.generic_params,
            substitution,
            true,
        );
        let w = w.coerce_fields(cx, values, list, substitution);
        let (w, verdict) = if start.has_invariant {
            let (w, verdict) = w.invariant_proof(cx, start.definition, canonical(list), values);
            (w, Some(verdict))
        } else {
            (w, None)
        };
        let w = w.set_record_fields(e.id, canonical(list));
        let (w, nominal) = w.intern(
            TyData::Nominal { definition: start.definition, arguments },
        );
        let (w, carries_task) = w.has_task_obligation(cx, nominal);
        w.settle_record(cx, e, start.definition, nominal, verdict, carries_task, values, list)
    }

    #[verifier::opaque]
    pub open spec fn settle_record(
        self,
        cx: &Context,
        e: Expr,
        definition: DefId,
        nominal: TyId,
        verdict: Option<ProofResult>,
        carries_task: bool,
        values: Chain<RecordFieldValue>,
        list: Chain<FieldActual>,
    ) -> (World, TyId) {
        match verdict {
            None => (self, nominal),
            Some(ProofResult::Proven) => (
                self.set_construction(e.id, ConstructionCheck::Proven),
                nominal,
            ),
            Some(ProofResult::Disproven) => (
                (if carries_task {
                    self.consume_fields(cx, values, list)
                } else {
                    self
                }).set_construction(e.id, ConstructionCheck::Runtime).error(
                    "InvariantUnsatisfied",
                    Message::Definition(
                        "record literal is statically known to violate `",
                        definition,
                        "` invariant",
                        "<record>",
                    ),
                    e.span,
                ),
                error_ty(),
            ),
            Some(ProofResult::Unknown) => if carries_task {
                (
                    self.text_error(
                        "TaskFallibleConstructionUnsupported",
                        "a Task-carrying invariant record requires a statically proven invariant because a failed runtime check cannot discard its Task",
                        e.span,
                    ).consume_fields(cx, values, list),
                    error_ty(),
                )
            } else {
                self.set_construction(e.id, ConstructionCheck::Runtime).intern(
                    TyData::Result {
                        ok: nominal,
                        error: builtin_ty(BuiltinType::ConstraintError),
                    },
                )
            },
        }
    }
}

impl BodyChecker {
    fn infer_arguments(
        &mut self,
        span: Span,
        parameters: &Chain<GenericParamId>,
        substitution: &Substitution,
        of_record: bool,
    ) -> (list: Chain<TyId>)
        ensures
            adds_to(old(self)@.st.diagnostics, final(self)@.st.diagnostics),
            final(self)@.types == old(self)@.types,
            (final(self)@, list) == old(self)@.inferred_arguments(
                span,
                *parameters,
                *substitution,
                of_record,
            ),
        decreases parameters,
    {
        proof {
            reveal(World::inferred_arguments);
        }
        match parameters {
            Chain::Empty => Chain::new(),
            Chain::Link(link) => {
                let list = self.infer_arguments(span, &link.rest, substitution, of_record);
                match substitution.get(link.item) {
                    Some(argument) => list.with(argument),
                    None => {
                        self.error(
                            "CannotInferType",
                            if of_record {
                                Message::GenericParam(
                                    "cannot infer record parameter `",
                                    link.item,
                                    "`",
                                )
                            } else {
                                Message::Text("cannot infer enum type arguments")
                            },
                            span,
                        );
                        list.with(TyId(0))
                    },
                }
            },
        }
    }

    pub fn begin_variant(
        &mut self,
        cx: &Context,
        e: &Expr,
        variant: DefId,
        owner: DefId,
        called: bool,
        type_arguments: &Chain<TypeRefId>,
        arguments: &Chain<Expr>,
        expected: Option<TyId>,
    ) -> (call: Option<VariantCall>)
        requires
            old(self).wf(),
        ensures
            adds_to(old(self)@.st.diagnostics, final(self)@.st.diagnostics),
            final(self).wf(),
            later(old(self)@.types, final(self)@.types),
            (final(self)@, call) == old(self)@.begin_variant(
                cx,
                *e,
                variant,
                owner,
                called,
                *type_arguments,
                *arguments,
                expected,
            ),
    {
        proof {
            reveal(World::begin_variant);
        }
        match cx.signature(variant) {
            Some(Signature::Variant { owner: _, payload }) => {
                let generic_params = cx.program.type_generic_params(owner);
                let called_value = payload.is_empty() && called;
                if called_value {
                    self.text_error("TypeMismatch", "value constructor is not callable", e.span);
                }
                let explicit = self.resolve_written_types(cx, type_arguments);
                if !called_value && longer(&explicit, &generic_params) {
                    self.text_error("TypeMismatch", "too many explicit generic arguments", e.span);
                }
                let mut substitution = pair_params(
                    &generic_params,
                    &explicit,
                    &Substitution::default(),
                );
                self.unify_with(cx, owner, expected, &mut substitution);
                if !called_value {
                    self.check_arity(e.span, payload, arguments);
                }
                Some(VariantCall { payload: payload.clone(), substitution })
            },
            _ => None,
        }
    }

    fn unify_with(
        &mut self,
        cx: &Context,
        definition: DefId,
        expected: Option<TyId>,
        substitution: &mut Substitution,
    )
        requires
            old(self).wf(),
        ensures
            adds_to(old(self)@.st.diagnostics, final(self)@.st.diagnostics),
            final(self).wf(),
            later(old(self)@.types, final(self)@.types),
            (final(self)@, *final(substitution)) == old(self)@.unified_with(
                cx,
                definition,
                expected,
                *old(substitution),
            ),
    {
        proof {
            reveal(World::unified_with);
        }
        match expected {
            Some(expected_ty) => {
                let pattern = nominal_self_type(cx.program, &mut self.types, definition);
                unify_type(&self.types, pattern, expected_ty, substitution);
            },
            None => {},
        }
    }

    fn coerce_payload(
        &mut self,
        cx: &Context,
        arguments: &Chain<Expr>,
        actuals: &Chain<Actual>,
        substitution: &Substitution,
    )
        requires
            old(self).wf(),
        ensures
            adds_to(old(self)@.st.diagnostics, final(self)@.st.diagnostics),
            final(self).wf(),
            later(old(self)@.types, final(self)@.types),
            final(self)@ == old(self)@.coerce_payload(cx, *arguments, *actuals, *substitution),
        decreases arguments,
    {
        proof {
            reveal(World::coerce_payload);
        }
        match arguments {
            Chain::Empty => {},
            Chain::Link(link) => if check_behind(&link.rest, false, actuals) {
                self.coerce_payload(cx, &link.rest, actuals, substitution);
            } else {
                match actuals {
                    Chain::Empty => {},
                    Chain::Link(types) => {
                        self.coerce_payload(cx, &link.rest, &types.rest, substitution);
                        let expected = self.substitute(types.item.declared, substitution);
                        self.coerce(cx, &link.item, types.item.actual, expected);
                    },
                }
            },
        }
    }

    pub fn end_variant(
        &mut self,
        cx: &Context,
        e: &Expr,
        variant: DefId,
        owner: DefId,
        arguments: &Chain<Expr>,
        actuals: &Chain<Actual>,
        substitution: Substitution,
    ) -> (ty: TyId)
        requires
            old(self).wf(),
        ensures
            adds_to(old(self)@.st.diagnostics, final(self)@.st.diagnostics),
            final(self).wf(),
            later(old(self)@.types, final(self)@.types),
            (final(self)@, ty) == old(self)@.end_variant(
                cx,
                *e,
                variant,
                owner,
                *arguments,
                *actuals,
                substitution,
            ),
    {
        proof {
            reveal(World::end_variant);
        }
        let parameters = cx.program.type_generic_params(owner);
        let type_arguments = self.infer_arguments(e.span, &parameters, &substitution, false);
        self.coerce_payload(cx, arguments, actuals, &substitution);
        let result = self.intern(TyData::Nominal { definition: owner, arguments: type_arguments });
        self.set_call(
            e.id,
            CallResolution {
                target: CallTarget::EnumVariant(variant),
                substitution,
                dispatch_witness: None,
                witnesses: Chain::new(),
                receiver: None,
            },
        );
        result
    }

    fn report_repeated(&mut self, values: &Chain<RecordFieldValue>)
        ensures
            adds_to(old(self)@.st.diagnostics, final(self)@.st.diagnostics),
            final(self)@.types == old(self)@.types,
            final(self)@ == old(self)@.report_repeated(*values),
        decreases values,
    {
        proof {
            reveal(World::report_repeated);
        }
        match values {
            Chain::Empty => {},
            Chain::Link(link) => {
                self.report_repeated(&link.rest);
                match find_value_named(&link.rest, &link.item.name) {
                    Some(previous) => {
                        let diagnostic = Diagnostic::error(
                            "DuplicateField",
                            Message::Name(
                                "field `",
                                link.item.name.clone(),
                                "` is supplied more than once",
                            ),
                            link.item.span,
                        ).with_label(previous.span, "first value");
                        self.report(diagnostic);
                    },
                    None => {},
                }
            },
        }
    }

    pub fn begin_record(
        &mut self,
        cx: &Context,
        e: &Expr,
        path: &Path,
        values: &Chain<RecordFieldValue>,
        expected: Option<TyId>,
    ) -> (start: Option<RecordStart>)
        requires
            old(self).wf(),
        ensures
            adds_to(old(self)@.st.diagnostics, final(self)@.st.diagnostics),
            final(self).wf(),
            later(old(self)@.types, final(self)@.types),
            (final(self)@, start) == old(self)@.begin_record(cx, *e, *path, *values, expected),
    {
        proof {
            reveal(World::begin_record);
        }
        match find_record(cx, path) {
            None => {
                self.error(
                    "UnknownName",
                    Message::Path("unknown record `", path.segments.clone(), "`"),
                    e.span,
                );
                None
            },
            Some(definition) => match cx.program.kind(definition) {
                Some(DefinitionKind::Record { generic_params, fields, invariant_body }) =>
                    match find_protected(cx, definition) {
                        Some(text) => {
                            self.text_error("TypeMismatch", text, e.span);
                            None
                        },
                        None => {
                            let mut substitution = Substitution::default();
                            self.unify_with(cx, definition, expected, &mut substitution);
                            self.report_repeated(values);
                            Some(
                                RecordStart {
                                    definition,
                                    generic_params: generic_params.clone(),
                                    fields: fields.clone(),
                                    has_invariant: invariant_body.is_some(),
                                    substitution,
                                },
                            )
                        },
                    },
                _ => {
                    self.text_error("TypeMismatch", "literal target is not a record", e.span);
                    None
                },
            },
        }
    }

    pub fn begin_field(
        &mut self,
        cx: &Context,
        e: &Expr,
        field: DefId,
        before: &Chain<DefId>,
        values: &Chain<RecordFieldValue>,
        substitution: &Substitution,
    ) -> (start: Option<FieldStart>)
        requires
            old(self).wf(),
        ensures
            adds_to(old(self)@.st.diagnostics, final(self)@.st.diagnostics),
            final(self).wf(),
            later(old(self)@.types, final(self)@.types),
            (final(self)@, start) == old(self)@.begin_field(
                cx,
                *e,
                field,
                *before,
                *values,
                *substitution,
            ),
    {
        proof {
            reveal(World::begin_field);
        }
        let name = make_field_name(cx.program, field);
        let supplied = find_value_named(values, &name).is_some() && !check_declares_field(
            cx.program,
            before,
            &name,
        );
        if !supplied {
            self.error(
                "MissingField",
                Message::Definition("missing field `", field, "`", "<error>"),
                e.span,
            );
            return None;
        }
        match cx.signature(field) {
            Some(Signature::Field { owner: _, ty }) => {
                let expected = self.prepare_argument(*ty, substitution, false);
                Some(FieldStart { declared: *ty, expected })
            },
            _ => None,
        }
    }

    fn report_unknown(
        &mut self,
        cx: &Context,
        declared: &Chain<DefId>,
        values: &Chain<RecordFieldValue>,
        all: &Chain<RecordFieldValue>,
    )
        ensures
            adds_to(old(self)@.st.diagnostics, final(self)@.st.diagnostics),
            final(self)@.types == old(self)@.types,
            final(self)@ == old(self)@.report_unknown(cx, *declared, *values, *all),
        decreases values,
    {
        proof {
            reveal(World::report_unknown);
        }
        match values {
            Chain::Empty => {},
            Chain::Link(link) => {
                self.report_unknown(cx, declared, &link.rest, all);
                let last = match find_value_named(all, &link.item.name) {
                    Some(found) => found.value.id == link.item.value.id,
                    None => false,
                };
                if last && !check_declares_field(cx.program, declared, &link.item.name) {
                    self.error(
                        "UnknownField",
                        Message::Name("record has no field `", link.item.name.clone(), "`"),
                        link.item.span,
                    );
                }
            },
        }
    }

    fn coerce_fields(
        &mut self,
        cx: &Context,
        values: &Chain<RecordFieldValue>,
        list: &Chain<FieldActual>,
        substitution: &Substitution,
    )
        requires
            old(self).wf(),
        ensures
            adds_to(old(self)@.st.diagnostics, final(self)@.st.diagnostics),
            final(self).wf(),
            later(old(self)@.types, final(self)@.types),
            final(self)@ == old(self)@.coerce_fields(cx, *values, *list, *substitution),
        decreases list,
    {
        proof {
            reveal(World::coerce_fields);
        }
        match list {
            Chain::Empty => {},
            Chain::Link(link) => {
                self.coerce_fields(cx, values, &link.rest, substitution);
                let expected = self.substitute(link.item.types.declared, substitution);
                match find_value(values, link.item.value) {
                    Some(value) => {
                        self.coerce(cx, value, link.item.types.actual, expected);
                    },
                    None => {},
                }
            },
        }
    }

    fn consume_fields(
        &mut self,
        cx: &Context,
        values: &Chain<RecordFieldValue>,
        list: &Chain<FieldActual>,
    )
        requires
            old(self).wf(),
        ensures
            adds_to(old(self)@.st.diagnostics, final(self)@.st.diagnostics),
            final(self).wf(),
            later(old(self)@.types, final(self)@.types),
            final(self)@ == old(self)@.consume_fields(cx, *values, *list),
        decreases list,
    {
        proof {
            reveal(World::consume_fields);
        }
        match list {
            Chain::Empty => {},
            Chain::Link(link) => {
                self.consume_fields(cx, values, &link.rest);
                match find_value(values, link.item.value) {
                    Some(value) => {
                        self.consume_task_obligation(cx, value);
                    },
                    None => {},
                }
            },
        }
    }

    pub fn end_record(
        &mut self,
        cx: &Context,
        e: &Expr,
        start: &RecordStart,
        values: &Chain<RecordFieldValue>,
        list: &Chain<FieldActual>,
        substitution: &Substitution,
    ) -> (ty: TyId)
        requires
            old(self).wf(),
        ensures
            adds_to(old(self)@.st.diagnostics, final(self)@.st.diagnostics),
            final(self).wf(),
            later(old(self)@.types, final(self)@.types),
            (final(self)@, ty) == old(self)@.end_record(
                cx,
                *e,
                *start,
                *values,
                *list,
                *substitution,
            ),
    {
        proof {
            reveal(World::end_record);
        }
        self.report_unknown(cx, &start.fields, values, values);
        let arguments = self.infer_arguments(e.span, &start.generic_params, substitution, true);
        self.coerce_fields(cx, values, list, substitution);
        let fields = canonical_fields(list);
        let verdict = if start.has_invariant {
            Some(self.invariant_proof(cx, start.definition, &fields, values))
        } else {
            None
        };
        self.set_record_fields(e.id, fields);
        let nominal = self.intern(TyData::Nominal { definition: start.definition, arguments });
        let carries_task = self.has_task_obligation(cx, nominal);
        self.settle_record(cx, e, start.definition, nominal, verdict, carries_task, values, list)
    }

    fn settle_record(
        &mut self,
        cx: &Context,
        e: &Expr,
        definition: DefId,
        nominal: TyId,
        verdict: Option<ProofResult>,
        carries_task: bool,
        values: &Chain<RecordFieldValue>,
        list: &Chain<FieldActual>,
    ) -> (ty: TyId)
        requires
            old(self).wf(),
        ensures
            adds_to(old(self)@.st.diagnostics, final(self)@.st.diagnostics),
            final(self).wf(),
            later(old(self)@.types, final(self)@.types),
            (final(self)@, ty) == old(self)@.settle_record(
                cx,
                *e,
                definition,
                nominal,
                verdict,
                carries_task,
                *values,
                *list,
            ),
    {
        proof {
            reveal(World::settle_record);
        }
        match verdict {
            None => nominal,
            Some(ProofResult::Proven) => {
                self.set_construction(e.id, ConstructionCheck::Proven);
                nominal
            },
            Some(ProofResult::Disproven) => {
                if carries_task {
                    self.consume_fields(cx, values, list);
                }
                self.set_construction(e.id, ConstructionCheck::Runtime);
                self.error(
                    "InvariantUnsatisfied",
                    Message::Definition(
                        "record literal is statically known to violate `",
                        definition,
                        "` invariant",
                        "<record>",
                    ),
                    e.span,
                );
                TyId(0)
            },
            Some(ProofResult::Unknown) => if carries_task {
                self.text_error(
                    "TaskFallibleConstructionUnsupported",
                    "a Task-carrying invariant record requires a statically proven invariant because a failed runtime check cannot discard its Task",
                    e.span,
                );
                self.consume_fields(cx, values, list);
                TyId(0)
            } else {
                self.set_construction(e.id, ConstructionCheck::Runtime);
                let error = self.builtin(BuiltinType::ConstraintError);
                self.intern(TyData::Result { ok: nominal, error })
            },
        }
    }
}

} // verus!
