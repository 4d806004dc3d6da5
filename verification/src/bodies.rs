//! The check of all bodies of a program.

use vstd::prelude::*;

use crate::chain::Chain;
use crate::constants::Evaluation;
use crate::def_map::DefMapBuild;
#[allow(unused_imports)]
use crate::diagnostics::{adds_to, lemma_adds_nothing, lemma_adds_one, lemma_adds_through};
#[allow(unused_imports)]
use crate::growth::{later, lemma_later_itself, lemma_later_through};
use crate::hir::{get, Body, BodyKind, DefinitionKind, ReceiverKind};
#[allow(unused_imports)]
use crate::hir::at;
use crate::ids::{BodyId, DefId, TyId};
use crate::lookup::nominal_self_type;
#[allow(unused_imports)]
use crate::lookup::nominal_self;
use crate::resolve::{Sources, TypeContext, TypeResolver};
use crate::semantics::{BodySemantics, Bound, CallableSignature, CanonicalConcepts, FloatFact, Signature};
use crate::state::{BodyChecker, BodyEnvironment, Context, ContractMode};
#[allow(unused_imports)]
use crate::state::World;
use crate::survey::Analyzer;
#[allow(unused_imports)]
use crate::survey::Survey;
use crate::table::{contains_id, Table};
#[allow(unused_imports)]
use crate::table::has_id;
use crate::ty::{BuiltinType, TyInterner};
#[allow(unused_imports)]
use crate::ty::{builtin_ty, error_ty};

verus! {

broadcast use {
    lemma_adds_nothing,
    lemma_adds_one,
    lemma_adds_through,
    lemma_later_itself,
    lemma_later_through,
};

/// What the check of the bodies is given.
pub struct BodySources<'a> {
    pub sources: &'a Sources<'a>,
    pub canonical_concepts: CanonicalConcepts,
    /// The results of float operations that are known.
    pub floats: &'a Chain<FloatFact>,
    /// What an earlier check found of bodies.
    pub previous: &'a Table<BodySemantics>,
    /// The bodies whose earlier check still holds.
    pub reusable: &'a Chain<u32>,
}

/// The types that a body is checked against.
pub struct BodyFrame {
    pub expected_root: TyId,
    pub return_ty: TyId,
    pub self_ty: Option<TyId>,
    pub receiver: Option<ReceiverKind>,
    pub result_ty: Option<TyId>,
    pub contract: ContractMode,
}

/// The order in which the kinds of bodies are checked.
pub open spec fn body_rank(kind: BodyKind) -> u32 {
    match kind {
        BodyKind::RefinementPredicate => 0,
        BodyKind::RecordInvariant => 1,
        BodyKind::Requires => 2,
        BodyKind::Ensures => 3,
        BodyKind::Function => 4,
        BodyKind::Method => 4,
        BodyKind::Constant => 5,
    }
}

fn rank_of_body(kind: BodyKind) -> (rank: u32)
    ensures
        rank == body_rank(kind),
{
    match kind {
        BodyKind::RefinementPredicate => 0,
        BodyKind::RecordInvariant => 1,
        BodyKind::Requires => 2,
        BodyKind::Ensures => 3,
        BodyKind::Function => 4,
        BodyKind::Method => 4,
        BodyKind::Constant => 5,
    }
}

/// The rank of bodies that are constants, behind all others.
pub const CONSTANT_RANK: u32 = 5;

pub open spec fn receiver_of(signature: Option<CallableSignature>) -> Option<ReceiverKind> {
    match signature {
        Some(found) => found.receiver,
        None => None,
    }
}

fn find_receiver(signature: &Option<CallableSignature>) -> (receiver: Option<ReceiverKind>)
    ensures
        receiver == receiver_of(*signature),
{
    match signature {
        Some(found) => found.receiver,
        None => None,
    }
}

pub open spec fn return_of(signature: Option<CallableSignature>) -> Option<TyId> {
    match signature {
        Some(found) => Some(found.return_ty),
        None => None,
    }
}

fn find_return(signature: &Option<CallableSignature>) -> (ty: Option<TyId>)
    ensures
        ty == return_of(*signature),
{
    match signature {
        Some(found) => Some(found.return_ty),
        None => None,
    }
}

/// The frame of a predicate.
pub open spec fn predicate_frame(
    self_ty: Option<TyId>,
    receiver: Option<ReceiverKind>,
    result_ty: Option<TyId>,
    old_allowed: bool,
) -> BodyFrame {
    BodyFrame {
        expected_root: builtin_ty(BuiltinType::Bool),
        return_ty: builtin_ty(BuiltinType::Bool),
        self_ty,
        receiver,
        result_ty,
        contract: ContractMode::Predicate { old_allowed },
    }
}

impl Survey {
    pub open spec fn callable_of(self, definition: DefId) -> Option<CallableSignature> {
        match self.signature_of(definition) {
            Some(Signature::Callable(signature)) => Some(signature),
            _ => None,
        }
    }

    /// The type of a constant.
    pub open spec fn constant_type(self, definition: DefId) -> TyId {
        match self.signature_of(definition) {
            Some(Signature::Constant { ty }) => ty,
            _ => error_ty(),
        }
    }

    /// The type whose values a refinement predicate accepts.
    pub open spec fn refined_base(self, cx: &Sources, definition: DefId) -> TyId {
        match cx.program.kind_of(definition) {
            Some(DefinitionKind::RefinedType { base, predicate: _ }) =>
                match self.names.type_refs.lookup(base.0) {
                    Some(ty) => ty,
                    None => error_ty(),
                },
            _ => error_ty(),
        }
    }

    /// The types that a body is checked against.
    #[verifier::opaque]
    pub open spec fn body_frame(self, cx: &Sources, source: Body, context: TypeContext) -> (
        Survey,
        BodyFrame,
    ) {
        let owner = source.owner;
        let signature = self.callable_of(owner);
        match source.kind {
            BodyKind::Constant => {
                let ty = self.constant_type(owner);
                (
                    self,
                    BodyFrame {
                        expected_root: ty,
                        return_ty: ty,
                        self_ty: None,
                        receiver: None,
                        result_ty: None,
                        contract: ContractMode::Ordinary,
                    },
                )
            },
            BodyKind::RefinementPredicate => (
                self,
                predicate_frame(
                    Some(self.refined_base(cx, owner)),
                    Some(ReceiverKind::ReadOnly),
                    None,
                    false,
                ),
            ),
            BodyKind::RecordInvariant => {
                let (types, ty) = nominal_self(cx.program, self.names.types, owner);
                (
                    self.with_types(types),
                    predicate_frame(Some(ty), Some(ReceiverKind::ReadOnly), None, false),
                )
            },
            BodyKind::Requires => (
                self,
                predicate_frame(context.self_ty, receiver_of(signature), None, false),
            ),
            BodyKind::Ensures => (
                self,
                predicate_frame(
                    context.self_ty,
                    receiver_of(signature),
                    return_of(signature),
                    true,
                ),
            ),
            _ => {
                let ty = match return_of(signature) {
                    Some(found) => found,
                    None => builtin_ty(BuiltinType::Unit),
                };
                (
                    self,
                    BodyFrame {
                        expected_root: ty,
                        return_ty: ty,
                        self_ty: context.self_ty,
                        receiver: receiver_of(signature),
                        result_ty: None,
                        contract: ContractMode::Ordinary,
                    },
                )
            },
        }
    }

    /// What a body is checked against.
    #[verifier::opaque]
    pub open spec fn body_environment(self, cx: &Sources, source: Body) -> (
        Survey,
        BodyEnvironment,
    ) {
        let (names, context) = self.names.type_context(cx, source.owner);
        let (s, frame) = self.with_names(names).body_frame(cx, source, context);
        let signature = s.callable_of(source.owner);
        (
            s,
            BodyEnvironment {
                owner: source.owner,
                expected_root: frame.expected_root,
                return_ty: frame.return_ty,
                self_ty: frame.self_ty,
                receiver: frame.receiver,
                result_ty: frame.result_ty,
                params: match signature {
                    Some(found) => found.params,
                    None => Chain::Empty,
                },
                bounds: match signature {
                    Some(found) => found.bounds,
                    None => Chain::Empty,
                },
                contract: frame.contract,
                is_async: match signature {
                    Some(found) => found.is_async,
                    None => false,
                },
                names: context,
            },
        )
    }

    /// What the check of a body is given of the analysis.
    pub open spec fn body_context<'a>(
        self,
        cx: &BodySources<'a>,
        body: BodyId,
        source: &'a Body,
        environment: BodyEnvironment,
    ) -> Context<'a> {
        Context {
            program: cx.sources.program,
            signatures: &self.st.signatures,
            type_refs: &self.names.type_refs,
            impl_index: &self.st.impl_index.seen_from(
                cx.sources.program,
                cx.sources.program.module_of(source.owner),
            ),
            canonical_concepts: cx.canonical_concepts,
            canonical_std_items: cx.sources.items,
            constants: &self.st.constants,
            conformances: &self.st.conformances,
            bodies: &self.st.bodies,
            floats: cx.floats,
            visible_concepts: &cx.sources.program.scopes().concepts_seen(
                cx.sources.program.module_of(source.owner),
                cx.sources.program.span_of(source.owner).file,
            ),
            body,
            source,
            environment: &environment,
        }
    }

    /// A body is checked, and what was found of it is entered.
    pub open spec fn check_body(self, cx: &BodySources, body: BodyId) -> Survey {
        match at(cx.sources.program.bodies@, body.0) {
            Some(source) => {
                let (s, environment) = self.body_environment(cx.sources, source);
                let w = World::start(s.names, environment.contract).check(
                    &s.body_context(cx, body, &source, environment),
                );
                s.with_names(w.names()).set_body(body, w.st.semantics).request_all(
                    w.st.float_requests,
                )
            },
            None => self,
        }
    }

    /// A body is checked, unless an earlier check of it still holds.
    pub open spec fn settle_body(self, cx: &BodySources, body: BodyId) -> Survey {
        match cx.previous.lookup(body.0) {
            Some(semantics) => if has_id(*cx.reusable, body.0) {
                self.set_body(body, semantics)
            } else {
                self.check_body(cx, body)
            },
            None => self.check_body(cx, body),
        }
    }

    /// The constants below `count` are checked.
    pub open spec fn constant_bodies_checked(self, cx: &BodySources, count: nat) -> Survey
        decreases count,
    {
        if count == 0 {
            self
        } else {
            let s = self.constant_bodies_checked(cx, (count - 1) as nat);
            let body = BodyId((count - 1) as u32);
            if cx.sources.program.bodies@[count - 1].kind == BodyKind::Constant {
                s.check_body(cx, body)
            } else {
                s
            }
        }
    }

    /// The bodies below `count` that have a rank are checked.
    pub open spec fn ranked_bodies_checked(
        self,
        cx: &BodySources,
        rank: u32,
        count: nat,
    ) -> Survey
        decreases count,
    {
        if count == 0 {
            self
        } else {
            let s = self.ranked_bodies_checked(cx, rank, (count - 1) as nat);
            let body = BodyId((count - 1) as u32);
            if body_rank(cx.sources.program.bodies@[count - 1].kind) == rank {
                s.settle_body(cx, body)
            } else {
                s
            }
        }
    }

    /// The bodies of the ranks below `rank` are checked, rank by rank.
    pub open spec fn ranks_checked(self, cx: &BodySources, rank: nat) -> Survey
        decreases rank,
    {
        if rank == 0 {
            self
        } else {
            self.ranks_checked(cx, (rank - 1) as nat).ranked_bodies_checked(
                cx,
                (rank - 1) as u32,
                cx.sources.program.bodies@.len(),
            )
        }
    }

    /// The bodies are checked: constants first, so that their values are
    /// known, then contracts, then the rest.
    pub open spec fn check_bodies(self, cx: &BodySources) -> Survey {
        let s = self.constant_bodies_checked(cx, cx.sources.program.bodies@.len());
        let evaluation = Evaluation { program: cx.sources.program, floats: cx.floats };
        s.evaluate_constants(&evaluation).ranks_checked(cx, CONSTANT_RANK as nat)
    }
}

fn make_predicate_frame(
    types: &TyInterner,
    self_ty: Option<TyId>,
    receiver: Option<ReceiverKind>,
    result_ty: Option<TyId>,
    old_allowed: bool,
) -> (frame: BodyFrame)
    ensures
        frame == predicate_frame(self_ty, receiver, result_ty, old_allowed),
{
    BodyFrame {
        expected_root: types.builtin(BuiltinType::Bool),
        return_ty: types.builtin(BuiltinType::Bool),
        self_ty,
        receiver,
        result_ty,
        contract: ContractMode::Predicate { old_allowed },
    }
}

impl Analyzer {
    fn callable_of(&self, definition: DefId) -> (signature: Option<CallableSignature>)
        ensures
            signature == self@.callable_of(definition),
    {
        match self.st.signatures.get(definition.0) {
            Some(Signature::Callable(signature)) => Some(signature.clone()),
            _ => None,
        }
    }

    fn constant_type(&self, definition: DefId) -> (ty: TyId)
        ensures
            ty == self@.constant_type(definition),
    {
        match self.st.signatures.get(definition.0) {
            Some(Signature::Constant { ty }) => *ty,
            _ => self.names.types.error(),
        }
    }

    fn refined_base(&self, cx: &Sources, definition: DefId) -> (ty: TyId)
        ensures
            ty == self@.refined_base(cx, definition),
    {
        match cx.program.kind(definition) {
            Some(DefinitionKind::RefinedType { base, predicate: _ }) =>
                match self.names.type_refs.get(base.0) {
                    Some(ty) => *ty,
                    None => self.names.types.error(),
                },
            _ => self.names.types.error(),
        }
    }

    fn body_frame(&mut self, cx: &Sources, source: &Body, context: &TypeContext) -> (frame:
        BodyFrame)
        requires
            old(self).wf(),
        ensures
            adds_to(old(self)@.names.diagnostics, final(self)@.names.diagnostics),
            final(self).wf(),
            later(old(self)@.names.types, final(self)@.names.types),
            (final(self)@, frame) == old(self)@.body_frame(cx, *source, *context),
    {
        proof {
            reveal(Survey::body_frame);
        }
        let owner = source.owner;
        let signature = self.callable_of(owner);
        match source.kind {
            BodyKind::Constant => {
                let ty = self.constant_type(owner);
                BodyFrame {
                    expected_root: ty,
                    return_ty: ty,
                    self_ty: None,
                    receiver: None,
                    result_ty: None,
                    contract: ContractMode::Ordinary,
                }
            },
            BodyKind::RefinementPredicate => {
                let base = self.refined_base(cx, owner);
                make_predicate_frame(
                    &self.names.types,
                    Some(base),
                    Some(ReceiverKind::ReadOnly),
                    None,
                    false,
                )
            },
            BodyKind::RecordInvariant => {
                let ty = nominal_self_type(cx.program, &mut self.names.types, owner);
                make_predicate_frame(
                    &self.names.types,
                    Some(ty),
                    Some(ReceiverKind::ReadOnly),
                    None,
                    false,
                )
            },
            BodyKind::Requires => make_predicate_frame(
                &self.names.types,
                context.self_ty,
                find_receiver(&signature),
                None,
                false,
            ),
            BodyKind::Ensures => make_predicate_frame(
                &self.names.types,
                context.self_ty,
                find_receiver(&signature),
                find_return(&signature),
                true,
            ),
            _ => {
                let ty = match find_return(&signature) {
                    Some(found) => found,
                    None => self.names.types.builtin(BuiltinType::Unit),
                };
                BodyFrame {
                    expected_root: ty,
                    return_ty: ty,
                    self_ty: context.self_ty,
                    receiver: find_receiver(&signature),
                    result_ty: None,
                    contract: ContractMode::Ordinary,
                }
            },
        }
    }

    fn body_environment(&mut self, cx: &Sources, source: &Body) -> (environment: BodyEnvironment)
        requires
            old(self).wf(),
        ensures
            adds_to(old(self)@.names.diagnostics, final(self)@.names.diagnostics),
            final(self).wf(),
            later(old(self)@.names.types, final(self)@.names.types),
            (final(self)@, environment) == old(self)@.body_environment(cx, *source),
    {
        proof {
            reveal(Survey::body_environment);
        }
        let context = self.names.type_context(cx, source.owner);
        let frame = self.body_frame(cx, source, &context);
        let signature = self.callable_of(source.owner);
        let (params, bounds, is_async) = match signature {
            Some(found) => (found.params, found.bounds, found.is_async),
            None => (Chain::new(), Chain::<Bound>::new(), false),
        };
        BodyEnvironment {
            owner: source.owner,
            expected_root: frame.expected_root,
            return_ty: frame.return_ty,
            self_ty: frame.self_ty,
            receiver: frame.receiver,
            result_ty: frame.result_ty,
            params,
            bounds,
            contract: frame.contract,
            is_async,
            names: context,
        }
    }

    /// Takes the types and what was reported out, to be given back after the
    /// check of a body.
    fn lend_names(&mut self) -> (names: TypeResolver)
        ensures
            names@ == old(self)@.names,
            names.wf() == old(self).wf(),
            final(self).st == old(self).st,
    {
        let mut names = TypeResolver {
            types: TyInterner::new(),
            type_refs: Table::new(),
            diagnostics: Chain::new(),
        };
        std::mem::swap(&mut names, &mut self.names);
        names
    }

    /// Checks a body.
    pub fn check_body(&mut self, cx: &BodySources, def_maps: &DefMapBuild, body: BodyId)
        requires
            old(self).wf(),
            def_maps@ == cx.sources.program.scopes(),
        ensures
            adds_to(old(self)@.names.diagnostics, final(self)@.names.diagnostics),
            final(self).wf(),
            later(old(self)@.names.types, final(self)@.names.types),
            final(self)@ == old(self)@.check_body(cx, body),
    {
        match get(&cx.sources.program.bodies, body.0) {
            Some(source) => {
                let environment = self.body_environment(cx.sources, source);
                let type_refs = self.names.type_refs.clone();
                let impl_index = self.st.impl_index.in_scope_of(
                    cx.sources.program,
                    cx.sources.program.module(source.owner),
                );
                let visible_concepts = def_maps.visible_concepts(
                    cx.sources.program.module(source.owner),
                    cx.sources.program.definition_span(source.owner).file,
                );
                let names = self.lend_names();
                let mut checker = BodyChecker::new(names, environment.contract);
                checker.check(
                    &Context {
                        program: cx.sources.program,
                        signatures: &self.st.signatures,
                        type_refs: &type_refs,
                        impl_index: &impl_index,
                        canonical_concepts: cx.canonical_concepts,
                        canonical_std_items: cx.sources.items,
                        constants: &self.st.constants,
                        conformances: &self.st.conformances,
                        bodies: &self.st.bodies,
                        floats: cx.floats,
                        visible_concepts: &visible_concepts,
                        body,
                        source,
                        environment: &environment,
                    },
                );
                let checked = checker.st;
                self.names = TypeResolver {
                    types: checker.types,
                    type_refs: checked.type_refs,
                    diagnostics: checked.diagnostics,
                };
                self.set_body(body, checked.semantics);
                self.request_all(&checked.float_requests);
            },
            None => {},
        }
    }

    fn settle_body(&mut self, cx: &BodySources, def_maps: &DefMapBuild, body: BodyId)
        requires
            old(self).wf(),
            def_maps@ == cx.sources.program.scopes(),
        ensures
            adds_to(old(self)@.names.diagnostics, final(self)@.names.diagnostics),
            final(self).wf(),
            later(old(self)@.names.types, final(self)@.names.types),
            final(self)@ == old(self)@.settle_body(cx, body),
    {
        match cx.previous.get(body.0) {
            Some(semantics) => {
                if contains_id(cx.reusable, body.0) {
                    self.set_body(body, semantics.clone());
                } else {
                    self.check_body(cx, def_maps, body);
                }
            },
            None => {
                self.check_body(cx, def_maps, body);
            },
        }
    }

    /// Checks the bodies: constants first, so that their values are known,
    /// then contracts, then the rest.
    pub fn check_bodies(&mut self, cx: &BodySources, def_maps: &DefMapBuild)
        requires
            old(self).wf(),
            def_maps@ == cx.sources.program.scopes(),
            cx.sources.program.fits(),
        ensures
            adds_to(old(self)@.names.diagnostics, final(self)@.names.diagnostics),
            final(self).wf(),
            later(old(self)@.names.types, final(self)@.names.types),
            final(self)@ == old(self)@.check_bodies(cx),
    {
        let ghost begun = self@;
        let count: u32 = cx.sources.program.bodies.len() as u32;
        let mut i: u32 = 0;
        while i < count
            invariant
                adds_to(old(self)@.names.diagnostics, self@.names.diagnostics),
                i <= count,
                count == cx.sources.program.bodies@.len(),
                def_maps@ == cx.sources.program.scopes(),
                self.wf(),
                later(old(self)@.names.types, self@.names.types),
                self@ == begun.constant_bodies_checked(cx, i as nat),
            decreases count - i,
        {
            if cx.sources.program.bodies[i as usize].kind == BodyKind::Constant {
                self.check_body(cx, def_maps, BodyId(i));
            }
            i = i + 1;
        }
        self.evaluate_constants(&Evaluation { program: cx.sources.program, floats: cx.floats });
        let ghost evaluated = self@;
        let mut rank: u32 = 0;
        while rank < CONSTANT_RANK
            invariant
                adds_to(old(self)@.names.diagnostics, self@.names.diagnostics),
                rank <= CONSTANT_RANK,
                count == cx.sources.program.bodies@.len(),
                def_maps@ == cx.sources.program.scopes(),
                self.wf(),
                later(old(self)@.names.types, self@.names.types),
                self@ == evaluated.ranks_checked(cx, rank as nat),
            decreases CONSTANT_RANK - rank,
        {
            let ghost before = self@;
            let mut j: u32 = 0;
            while j < count
                invariant
                    adds_to(old(self)@.names.diagnostics, self@.names.diagnostics),
                    j <= count,
                    count == cx.sources.program.bodies@.len(),
                    def_maps@ == cx.sources.program.scopes(),
                    self.wf(),
                    later(old(self)@.names.types, self@.names.types),
                    self@ == before.ranked_bodies_checked(cx, rank, j as nat),
                decreases count - j,
            {
                if rank_of_body(cx.sources.program.bodies[j as usize].kind) == rank {
                    self.settle_body(cx, def_maps, BodyId(j));
                }
                j = j + 1;
            }
            rank = rank + 1;
        }
    }
}

} // verus!
