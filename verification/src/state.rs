//! The state of checking a body.

use std::rc::Rc;
use vstd::prelude::*;

use crate::chain::Chain;
use crate::conformance::ImplIndex;
#[allow(unused_imports)]
use crate::diagnostics::{adds_to, lemma_adds_nothing, lemma_adds_one, lemma_adds_through};
use crate::diagnostics::{Diagnostic, Message};
#[allow(unused_imports)]
use crate::diagnostics::plain;
use crate::flow::FlowState;
#[allow(unused_imports)]
use crate::growth::{later, lemma_later_itself, lemma_later_through};
use crate::hir::{get, Body, Local, Program, ReceiverKind};
#[allow(unused_imports)]
use crate::hir::{at, no_span};
use crate::ids::{
    BodyId, DefId, ExprId, LocalId, ParamId, PatternId, RegionId, Span, TyId, TypeRefId,
};
use crate::resolve::TypeContext;
use crate::semantics::{
    BodySemantics, Bound, CallResolution, CanonicalConcepts, CanonicalStdItems, Coercion,
    ConformanceSemantics, ConstantValue, ConstructionCheck, FloatFact, FloatOperation, Place,
    Resolution, RuntimeCheck, ScopedDisposal, Signature, ViewResolution,
};
#[allow(unused_imports)]
use crate::substitution::substituted;
use crate::substitution::Substitution;
use crate::table::Table;
use crate::ty::{BuiltinType, TyData, TyInterner};
#[allow(unused_imports)]
use crate::ty::{builtin_ty, error_ty, interned, interned_ty, ty_data, types_wf};

verus! {

broadcast use {
    lemma_adds_nothing,
    lemma_adds_one,
    lemma_adds_through,
    lemma_later_itself,
    lemma_later_through,
};

/// Whether a contract is being checked, and whether it may use `old`.
#[derive(Clone, Copy, Debug, PartialEq, Eq, Structural)]
pub enum ContractMode {
    Ordinary,
    Predicate { old_allowed: bool },
}

/// What a body is checked against.
pub struct BodyEnvironment {
    pub owner: DefId,
    pub expected_root: TyId,
    pub return_ty: TyId,
    pub self_ty: Option<TyId>,
    pub receiver: Option<ReceiverKind>,
    pub result_ty: Option<TyId>,
    pub params: Chain<(ParamId, TyId)>,
    pub bounds: Chain<Bound>,
    pub contract: ContractMode,
    pub is_async: bool,
    /// What names stand for in the types that the body writes.
    pub names: TypeContext,
}

/// What is known of the program when a body is checked.
pub struct Context<'a> {
    pub program: &'a Program,
    pub signatures: &'a Table<Signature>,
    pub type_refs: &'a Table<TyId>,
    /// The implementations that the body may use.
    pub impl_index: &'a ImplIndex,
    pub canonical_concepts: CanonicalConcepts,
    pub canonical_std_items: CanonicalStdItems,
    pub constants: &'a Table<ConstantValue>,
    pub conformances: &'a Table<ConformanceSemantics>,
    pub bodies: &'a Table<BodySemantics>,
    /// The results of float operations that are known.
    pub floats: &'a Chain<FloatFact>,
    /// The concepts whose names are visible in the body, each once.
    pub visible_concepts: &'a Chain<DefId>,
    pub body: BodyId,
    pub source: &'a Body,
    pub environment: &'a BodyEnvironment,
}

#[derive(Clone, Copy, Debug, PartialEq, Eq, Structural)]
pub enum ExpressionContext {
    Value,
    UnitStatement,
}

#[derive(Clone, Copy, Debug, PartialEq, Eq, Structural)]
pub enum PlaceAccess {
    Read,
    Write,
}

#[derive(Clone, Copy, Debug, PartialEq, Eq, Structural)]
pub enum InvariantMutation {
    Assignment,
    ReceiverCall,
}

#[derive(Clone, Copy, Debug, PartialEq, Eq, Structural)]
pub enum DynamicCoercionMode {
    Owned,
    CallBorrow,
}

#[derive(Clone, Copy, Debug, PartialEq, Eq, Structural)]
pub enum ValuePathLookup {
    Missing,
    Bound,
    Invalid,
}

/// The states in which a loop is left or started again.
pub struct LoopFlowTarget {
    pub cleanup_depth: u32,
    pub defer_base: Chain<DeferredFlowEffect>,
    pub breaks: Chain<FlowState>,
    pub continues: Chain<FlowState>,
}

impl Clone for LoopFlowTarget {
    fn clone(&self) -> (copy: Self)
        ensures
            copy == *self,
    {
        LoopFlowTarget {
            cleanup_depth: self.cleanup_depth,
            defer_base: self.defer_base.clone(),
            breaks: self.breaks.clone(),
            continues: self.continues.clone(),
        }
    }
}

/// What a deferred cleanup does to the receiver.
pub struct DeferredFlowEffect {
    pub makes_self_dirty: bool,
    /// Where the cleanup needs the invariant of the receiver.
    pub self_boundaries: Chain<Boundary>,
}

/// An expression that needs the invariant of the receiver.
#[derive(Clone, Copy, Debug, PartialEq, Eq, Structural)]
pub struct Boundary {
    pub expression: u32,
    pub span: Span,
}

/// The state of checking a body, apart from the types.
pub struct CheckState {
    pub diagnostics: Chain<Diagnostic>,
    /// What the written types stand for that were looked at.
    pub type_refs: Table<TyId>,
    pub semantics: BodySemantics,
    /// The locals of each scope that is open, outermost first.
    pub scopes: Chain<Chain<LocalId>>,
    pub flow: FlowState,
    pub contract: ContractMode,
    pub allow_dirty_self_projection: bool,
    pub checking_assignment_target: bool,
    pub checking_discard_operand: bool,
    pub dynamic_coercion_mode: DynamicCoercionMode,
    pub regions: Chain<RegionId>,
    pub next_region: u32,
    pub next_view_token: u32,
    pub next_inout_scope: u32,
    pub scoped_locals: Chain<u32>,
    pub cleanup_depth: u32,
    pub active_defer_effects: Chain<DeferredFlowEffect>,
    pub current_defer_self_boundaries: Chain<Boundary>,
    pub reported_defer_self_boundaries: Chain<u32>,
    pub loop_flows: Chain<LoopFlowTarget>,
    pub allow_await_here: bool,
    pub checking_scoped_receiver: bool,
    pub scoped_initializer: Option<ExprId>,
    /// The float operations whose results a proof lacks.
    pub float_requests: Chain<FloatOperation>,
}

/// The types and the state of checking a body, as contracts speak of them.
pub struct World {
    pub types: Seq<TyData>,
    pub st: CheckState,
}

/// A check of a body.
pub struct BodyChecker {
    pub types: TyInterner,
    pub st: CheckState,
}

impl<'a> Context<'a> {
    pub open spec fn signature_of(&self, definition: DefId) -> Option<Signature> {
        self.signatures.lookup(definition.0)
    }

    pub fn signature(&self, definition: DefId) -> (signature: Option<&'a Signature>)
        ensures
            match signature {
                Some(found) => self.signature_of(definition) == Some(*found),
                None => self.signature_of(definition) is None,
            },
    {
        self.signatures.get(definition.0)
    }

    /// The type that a written type stands for; the error type if that was not
    /// resolved.
    pub open spec fn written_ty(&self, reference: TypeRefId) -> TyId {
        match self.type_refs.lookup(reference.0) {
            Some(ty) => ty,
            None => error_ty(),
        }
    }

    pub fn written_type(&self, reference: TypeRefId) -> (ty: TyId)
        ensures
            ty == self.written_ty(reference),
    {
        match self.type_refs.get(reference.0) {
            Some(ty) => *ty,
            None => TyId(0),
        }
    }

    pub open spec fn local_of(&self, local: LocalId) -> Option<Local> {
        at(self.source.locals@, local.0)
    }

    pub fn local(&self, local: LocalId) -> (found: Option<&'a Local>)
        ensures
            match found {
                Some(found) => self.local_of(local) == Some(*found),
                None => self.local_of(local) is None,
            },
    {
        get(&self.source.locals, local.0)
    }

    pub open spec fn local_span_of(&self, local: LocalId) -> Span {
        match self.local_of(local) {
            Some(found) => found.span,
            None => no_span(),
        }
    }

    pub fn local_span(&self, local: LocalId) -> (span: Span)
        ensures
            span == self.local_span_of(local),
    {
        match self.local(local) {
            Some(found) => found.span,
            None => Span { file: 0, start: 0, end: 0 },
        }
    }

    pub open spec fn param_span_of(&self, parameter: ParamId) -> Span {
        match at(self.program.params@, parameter.0) {
            Some(found) => found.span,
            None => no_span(),
        }
    }

    pub fn param_span(&self, parameter: ParamId) -> (span: Span)
        ensures
            span == self.param_span_of(parameter),
    {
        match get(&self.program.params, parameter.0) {
            Some(found) => found.span,
            None => Span { file: 0, start: 0, end: 0 },
        }
    }
}

impl World {
    pub open spec fn wf(self) -> bool {
        types_wf(self.types)
    }

    pub open spec fn data(self, ty: TyId) -> TyData {
        ty_data(self.types, ty)
    }

    #[verifier::opaque]
    pub open spec fn report(self, diagnostic: Diagnostic) -> World {
        World {
            st: CheckState { diagnostics: self.st.diagnostics.pushed(diagnostic), ..self.st },
            ..self
        }
    }

    pub open spec fn error(self, code: &'static str, message: Message, span: Span) -> World {
        self.report(plain(code, message, span))
    }

    pub open spec fn text_error(self, code: &'static str, text: &'static str, span: Span) -> World {
        self.error(code, Message::Text(text), span)
    }

    pub open spec fn intern(self, data: TyData) -> (World, TyId) {
        (World { types: interned(self.types, data), ..self }, interned_ty(self.types, data))
    }

    pub open spec fn substitute(self, ty: TyId, substitution: Substitution) -> (World, TyId) {
        let (types, result) = substituted(self.types, ty, substitution);
        (World { types, ..self }, result)
    }

    pub open spec fn with_flow(self, flow: FlowState) -> World {
        World { st: CheckState { flow, ..self.st }, ..self }
    }

    pub open spec fn with_semantics(self, semantics: BodySemantics) -> World {
        World { st: CheckState { semantics, ..self.st }, ..self }
    }

    #[verifier::opaque]
    pub open spec fn set_type(self, expression: ExprId, ty: TyId) -> World {
        self.with_semantics(
            BodySemantics {
                expression_types: self.st.semantics.expression_types.inserted(expression.0, ty),
                ..self.st.semantics
            },
        )
    }

    #[verifier::opaque]
    pub open spec fn set_place(self, expression: ExprId, place: Place) -> World {
        self.with_semantics(
            BodySemantics {
                expression_places: self.st.semantics.expression_places.inserted(
                    expression.0,
                    place,
                ),
                ..self.st.semantics
            },
        )
    }

    #[verifier::opaque]
    pub open spec fn set_resolution(self, expression: ExprId, resolution: Resolution) -> World {
        self.with_semantics(
            BodySemantics {
                expression_resolutions: self.st.semantics.expression_resolutions.inserted(
                    expression.0,
                    resolution,
                ),
                ..self.st.semantics
            },
        )
    }

    #[verifier::opaque]
    pub open spec fn set_coercion(self, expression: ExprId, coercion: Coercion) -> World {
        self.with_semantics(
            BodySemantics {
                expression_coercions: self.st.semantics.expression_coercions.inserted(
                    expression.0,
                    coercion,
                ),
                ..self.st.semantics
            },
        )
    }

    #[verifier::opaque]
    pub open spec fn set_pattern_type(self, pattern: PatternId, ty: TyId) -> World {
        self.with_semantics(
            BodySemantics {
                pattern_types: self.st.semantics.pattern_types.inserted(pattern.0, ty),
                ..self.st.semantics
            },
        )
    }

    #[verifier::opaque]
    pub open spec fn set_pattern_resolution(
        self,
        pattern: PatternId,
        resolution: Resolution,
    ) -> World {
        self.with_semantics(
            BodySemantics {
                pattern_resolutions: self.st.semantics.pattern_resolutions.inserted(
                    pattern.0,
                    resolution,
                ),
                ..self.st.semantics
            },
        )
    }

    #[verifier::opaque]
    pub open spec fn set_local_type(self, local: LocalId, ty: TyId) -> World {
        self.with_semantics(
            BodySemantics {
                local_types: self.st.semantics.local_types.inserted(local.0, ty),
                ..self.st.semantics
            },
        )
    }

    #[verifier::opaque]
    pub open spec fn set_call(self, expression: ExprId, call: CallResolution) -> World {
        self.with_semantics(
            BodySemantics {
                calls: self.st.semantics.calls.inserted(expression.0, call),
                ..self.st.semantics
            },
        )
    }

    #[verifier::opaque]
    pub open spec fn set_view(self, expression: ExprId, view: ViewResolution) -> World {
        self.with_semantics(
            BodySemantics {
                views: self.st.semantics.views.inserted(expression.0, view),
                ..self.st.semantics
            },
        )
    }

    #[verifier::opaque]
    pub open spec fn set_record_fields(
        self,
        expression: ExprId,
        fields: Chain<(DefId, ExprId)>,
    ) -> World {
        self.with_semantics(
            BodySemantics {
                record_fields: self.st.semantics.record_fields.inserted(expression.0, fields),
                ..self.st.semantics
            },
        )
    }

    #[verifier::opaque]
    pub open spec fn set_construction(self, expression: ExprId, check: ConstructionCheck) -> World {
        self.with_semantics(
            BodySemantics {
                construction_checks: self.st.semantics.construction_checks.inserted(
                    expression.0,
                    check,
                ),
                ..self.st.semantics
            },
        )
    }

    #[verifier::opaque]
    pub open spec fn set_assertion(self, expression: ExprId, check: RuntimeCheck) -> World {
        self.with_semantics(
            BodySemantics {
                assertion_checks: self.st.semantics.assertion_checks.inserted(expression.0, check),
                ..self.st.semantics
            },
        )
    }

    #[verifier::opaque]
    pub open spec fn set_disposal(self, local: LocalId, disposal: ScopedDisposal) -> World {
        self.with_semantics(
            BodySemantics {
                scoped_disposals: self.st.semantics.scoped_disposals.inserted(local.0, disposal),
                ..self.st.semantics
            },
        )
    }

    pub open spec fn place_of(self, expression: ExprId) -> Option<Place> {
        self.st.semantics.expression_places.lookup(expression.0)
    }

    pub open spec fn type_of(self, expression: ExprId) -> Option<TyId> {
        self.st.semantics.expression_types.lookup(expression.0)
    }
}

impl BodyChecker {
    pub open spec fn view(&self) -> World {
        World { types: self.types@, st: self.st }
    }

    pub open spec fn wf(self) -> bool {
        types_wf(self.types@)
    }

    pub fn report(&mut self, diagnostic: Diagnostic)
        ensures
            adds_to(old(self)@.st.diagnostics, final(self)@.st.diagnostics),
            final(self)@.types == old(self)@.types,
            final(self)@ == old(self)@.report(diagnostic),
    {
        proof {
            reveal(World::report);
        }
        self.st.diagnostics.push(diagnostic);
    }

    pub fn error(&mut self, code: &'static str, message: Message, span: Span)
        ensures
            adds_to(old(self)@.st.diagnostics, final(self)@.st.diagnostics),
            final(self)@.types == old(self)@.types,
            final(self)@ == old(self)@.error(code, message, span),
    {
        self.report(Diagnostic::error(code, message, span));
    }

    pub fn text_error(&mut self, code: &'static str, text: &'static str, span: Span)
        ensures
            adds_to(old(self)@.st.diagnostics, final(self)@.st.diagnostics),
            final(self)@.types == old(self)@.types,
            final(self)@ == old(self)@.text_error(code, text, span),
    {
        self.error(code, Message::Text(text), span);
    }

    pub fn data(&self, ty: TyId) -> (data: TyData)
        requires
            self.wf(),
        ensures
            data == self@.data(ty),
    {
        self.types.data(ty).clone()
    }

    pub fn intern(&mut self, data: TyData) -> (ty: TyId)
        requires
            old(self).wf(),
        ensures
            adds_to(old(self)@.st.diagnostics, final(self)@.st.diagnostics),
            final(self).wf(),
            later(old(self)@.types, final(self)@.types),
            (final(self)@, ty) == old(self)@.intern(data),
    {
        self.types.intern(data)
    }

    pub fn builtin(&self, builtin: BuiltinType) -> (ty: TyId)
        ensures
            ty == builtin_ty(builtin),
    {
        self.types.builtin(builtin)
    }

    pub fn substitute(&mut self, ty: TyId, substitution: &Substitution) -> (result: TyId)
        requires
            old(self).wf(),
        ensures
            adds_to(old(self)@.st.diagnostics, final(self)@.st.diagnostics),
            final(self).wf(),
            later(old(self)@.types, final(self)@.types),
            (final(self)@, result) == old(self)@.substitute(ty, *substitution),
    {
        self.types.substitute(ty, substitution)
    }

    pub fn set_type(&mut self, expression: ExprId, ty: TyId)
        ensures
            adds_to(old(self)@.st.diagnostics, final(self)@.st.diagnostics),
            final(self)@.types == old(self)@.types,
            final(self)@ == old(self)@.set_type(expression, ty),
    {
        proof {
            reveal(World::set_type);
        }
        self.st.semantics.expression_types.insert(expression.0, ty);
    }

    pub fn set_place(&mut self, expression: ExprId, place: Place)
        ensures
            adds_to(old(self)@.st.diagnostics, final(self)@.st.diagnostics),
            final(self)@.types == old(self)@.types,
            final(self)@ == old(self)@.set_place(expression, place),
    {
        proof {
            reveal(World::set_place);
        }
        self.st.semantics.expression_places.insert(expression.0, place);
    }

    pub fn set_resolution(&mut self, expression: ExprId, resolution: Resolution)
        ensures
            adds_to(old(self)@.st.diagnostics, final(self)@.st.diagnostics),
            final(self)@.types == old(self)@.types,
            final(self)@ == old(self)@.set_resolution(expression, resolution),
    {
        proof {
            reveal(World::set_resolution);
        }
        self.st.semantics.expression_resolutions.insert(expression.0, resolution);
    }

    pub fn set_coercion(&mut self, expression: ExprId, coercion: Coercion)
        ensures
            adds_to(old(self)@.st.diagnostics, final(self)@.st.diagnostics),
            final(self)@.types == old(self)@.types,
            final(self)@ == old(self)@.set_coercion(expression, coercion),
    {
        proof {
            reveal(World::set_coercion);
        }
        self.st.semantics.expression_coercions.insert(expression.0, coercion);
    }

    pub fn set_pattern_type(&mut self, pattern: PatternId, ty: TyId)
        ensures
            adds_to(old(self)@.st.diagnostics, final(self)@.st.diagnostics),
            final(self)@.types == old(self)@.types,
            final(self)@ == old(self)@.set_pattern_type(pattern, ty),
    {
        proof {
            reveal(World::set_pattern_type);
        }
        self.st.semantics.pattern_types.insert(pattern.0, ty);
    }

    pub fn set_pattern_resolution(&mut self, pattern: PatternId, resolution: Resolution)
        ensures
            adds_to(old(self)@.st.diagnostics, final(self)@.st.diagnostics),
            final(self)@.types == old(self)@.types,
            final(self)@ == old(self)@.set_pattern_resolution(pattern, resolution),
    {
        proof {
            reveal(World::set_pattern_resolution);
        }
        self.st.semantics.pattern_resolutions.insert(pattern.0, resolution);
    }

    pub fn set_local_type(&mut self, local: LocalId, ty: TyId)
        ensures
            adds_to(old(self)@.st.diagnostics, final(self)@.st.diagnostics),
            final(self)@.types == old(self)@.types,
            final(self)@ == old(self)@.set_local_type(local, ty),
    {
        proof {
            reveal(World::set_local_type);
        }
        self.st.semantics.local_types.insert(local.0, ty);
    }

    pub fn set_call(&mut self, expression: ExprId, call: CallResolution)
        ensures
            adds_to(old(self)@.st.diagnostics, final(self)@.st.diagnostics),
            final(self)@.types == old(self)@.types,
            final(self)@ == old(self)@.set_call(expression, call),
    {
        proof {
            reveal(World::set_call);
        }
        self.st.semantics.calls.insert(expression.0, call);
    }

    pub fn set_view(&mut self, expression: ExprId, view: ViewResolution)
        ensures
            adds_to(old(self)@.st.diagnostics, final(self)@.st.diagnostics),
            final(self)@.types == old(self)@.types,
            final(self)@ == old(self)@.set_view(expression, view),
    {
        proof {
            reveal(World::set_view);
        }
        self.st.semantics.views.insert(expression.0, view);
    }

    pub fn set_record_fields(&mut self, expression: ExprId, fields: Chain<(DefId, ExprId)>)
        ensures
            adds_to(old(self)@.st.diagnostics, final(self)@.st.diagnostics),
            final(self)@.types == old(self)@.types,
            final(self)@ == old(self)@.set_record_fields(expression, fields),
    {
        proof {
            reveal(World::set_record_fields);
        }
        self.st.semantics.record_fields.insert(expression.0, fields);
    }

    pub fn set_construction(&mut self, expression: ExprId, check: ConstructionCheck)
        ensures
            adds_to(old(self)@.st.diagnostics, final(self)@.st.diagnostics),
            final(self)@.types == old(self)@.types,
            final(self)@ == old(self)@.set_construction(expression, check),
    {
        proof {
            reveal(World::set_construction);
        }
        self.st.semantics.construction_checks.insert(expression.0, check);
    }

    pub fn set_assertion(&mut self, expression: ExprId, check: RuntimeCheck)
        ensures
            adds_to(old(self)@.st.diagnostics, final(self)@.st.diagnostics),
            final(self)@.types == old(self)@.types,
            final(self)@ == old(self)@.set_assertion(expression, check),
    {
        proof {
            reveal(World::set_assertion);
        }
        self.st.semantics.assertion_checks.insert(expression.0, check);
    }

    pub fn set_disposal(&mut self, local: LocalId, disposal: ScopedDisposal)
        ensures
            adds_to(old(self)@.st.diagnostics, final(self)@.st.diagnostics),
            final(self)@.types == old(self)@.types,
            final(self)@ == old(self)@.set_disposal(local, disposal),
    {
        proof {
            reveal(World::set_disposal);
        }
        self.st.semantics.scoped_disposals.insert(local.0, disposal);
    }

    pub fn place(&self, expression: ExprId) -> (place: Option<Place>)
        ensures
            place == self@.place_of(expression),
    {
        match self.st.semantics.expression_places.get(expression.0) {
            Some(place) => Some(place.clone()),
            None => None,
        }
    }

    pub fn type_of(&self, expression: ExprId) -> (ty: Option<TyId>)
        ensures
            ty == self@.type_of(expression),
    {
        match self.st.semantics.expression_types.get(expression.0) {
            Some(ty) => Some(*ty),
            None => None,
        }
    }

    pub fn flow_state(&self) -> (flow: FlowState)
        ensures
            flow == self@.st.flow,
    {
        self.st.flow.clone()
    }
}

} // verus!
