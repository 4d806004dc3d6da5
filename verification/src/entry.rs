//! What is known when a body starts, and what its contracts prove.

use std::rc::Rc;
use vstd::prelude::*;

use crate::chain::Chain;
#[allow(unused_imports)]
use crate::diagnostics::{adds_to, lemma_adds_nothing, lemma_adds_one, lemma_adds_through};
#[allow(unused_imports)]
use crate::growth::{later, lemma_later_itself, lemma_later_through};
use crate::hir::{BodyKind, CallableSource, DefinitionKind, Expr, ExprKind, ReceiverKind, RecordFieldValue};
use crate::ids::{BodyId, DefId, ExprId, ParamId, TyId};
use crate::proofs::{
    contract_proof_term, established_definition_term, established_type_term, proof_term,
};
#[allow(unused_imports)]
use crate::proofs::{contract_of, established_definition, established_type, expr_term};
use crate::semantics::{BodySemantics, Coercion, ReceiverPassing, RuntimeCheck, Signature};
#[allow(unused_imports)]
use crate::state::World;
use crate::state::{BodyChecker, Context};
#[allow(unused_imports)]
use crate::symbolic::root_term;
use crate::symbolic::{make_root_term, ProofFacts, ProofResult, ProofRoot, ProofTerm};
use crate::unify::longer;

verus! {

broadcast use {
    lemma_adds_nothing,
    lemma_adds_one,
    lemma_adds_through,
    lemma_later_itself,
    lemma_later_through,
};

/// The written signature of a callable.
pub open spec fn source_of(cx: &Context, definition: DefId) -> Option<CallableSource> {
    match cx.program.kind_of(definition) {
        Some(DefinitionKind::Function { signature, is_async: _ }) => Some(signature),
        Some(DefinitionKind::Test { signature, is_async: _ }) => Some(signature),
        Some(DefinitionKind::Method { owner: _, signature }) => Some(signature),
        _ => None,
    }
}

pub open spec fn requires_of(cx: &Context, definition: DefId) -> Chain<BodyId> {
    match source_of(cx, definition) {
        Some(source) => source.requires,
        None => Chain::Empty,
    }
}

pub open spec fn ensures_of(cx: &Context, definition: DefId) -> Chain<BodyId> {
    match source_of(cx, definition) {
        Some(source) => source.ensures,
        None => Chain::Empty,
    }
}

fn contracts(cx: &Context, definition: DefId) -> (result: (Chain<BodyId>, Chain<BodyId>))
    ensures
        result == (requires_of(cx, definition), ensures_of(cx, definition)),
{
    match cx.program.kind(definition) {
        Some(DefinitionKind::Function { signature, is_async: _ }) => (
            signature.requires.clone(),
            signature.ensures.clone(),
        ),
        Some(DefinitionKind::Test { signature, is_async: _ }) => (
            signature.requires.clone(),
            signature.ensures.clone(),
        ),
        Some(DefinitionKind::Method { owner: _, signature }) => (
            signature.requires.clone(),
            signature.ensures.clone(),
        ),
        _ => (Chain::new(), Chain::new()),
    }
}

/// The parameters of a callable with their types.
pub open spec fn params_of(cx: &Context, definition: DefId) -> Chain<(ParamId, TyId)> {
    match cx.signature_of(definition) {
        Some(Signature::Callable(signature)) => signature.params,
        _ => Chain::Empty,
    }
}

fn callable_params(cx: &Context, definition: DefId) -> (params: Chain<(ParamId, TyId)>)
    ensures
        params == params_of(cx, definition),
{
    match cx.signature(definition) {
        Some(Signature::Callable(signature)) => signature.params.clone(),
        _ => Chain::new(),
    }
}

pub open spec fn param_root(parameter: ParamId, at_entry: bool) -> ProofRoot {
    if at_entry {
        ProofRoot::OldParam(parameter.0)
    } else {
        ProofRoot::Param(parameter.0)
    }
}

/// Each parameter of a contract stands for the parameter at the same position
/// of the implementation.
pub open spec fn argument_terms(
    contract: Chain<(ParamId, TyId)>,
    implementation: Chain<(ParamId, TyId)>,
    at_entry: bool,
) -> Chain<(ParamId, ProofTerm)>
    decreases contract.spec_len() + implementation.spec_len(),
{
    match (contract, implementation) {
        (Chain::Link(left), Chain::Link(right)) => if contract.spec_len()
            > implementation.spec_len() {
            argument_terms(left.rest, implementation, at_entry)
        } else if implementation.spec_len() > contract.spec_len() {
            argument_terms(contract, right.rest, at_entry)
        } else {
            argument_terms(left.rest, right.rest, at_entry).pushed(
                (left.item.0, root_term(param_root(right.item.0, at_entry))),
            )
        },
        _ => Chain::Empty,
    }
}

fn make_argument_terms(
    contract: &Chain<(ParamId, TyId)>,
    implementation: &Chain<(ParamId, TyId)>,
    at_entry: bool,
) -> (terms: Chain<(ParamId, ProofTerm)>)
    ensures
        terms == argument_terms(*contract, *implementation, at_entry),
    decreases contract.spec_len() + implementation.spec_len(),
{
    match (contract, implementation) {
        (Chain::Link(left), Chain::Link(right)) => if longer(contract, implementation) {
            make_argument_terms(&left.rest, implementation, at_entry)
        } else if longer(implementation, contract) {
            make_argument_terms(contract, &right.rest, at_entry)
        } else {
            let root = if at_entry {
                ProofRoot::OldParam(right.item.0.0)
            } else {
                ProofRoot::Param(right.item.0.0)
            };
            make_argument_terms(&left.rest, &right.rest, at_entry).with(
                (left.item.0, make_root_term(root)),
            )
        },
        _ => Chain::new(),
    }
}

/// The requirement that a method implements.
pub open spec fn implemented_requirement(
    methods: Chain<(DefId, DefId)>,
    implementation: DefId,
) -> Option<DefId>
    decreases methods,
{
    match methods {
        Chain::Empty => None,
        Chain::Link(link) => match implemented_requirement(link.rest, implementation) {
            Some(found) => Some(found),
            None => if link.item.1 == implementation {
                Some(link.item.0)
            } else {
                None
            },
        },
    }
}

fn find_implemented_requirement(methods: &Chain<(DefId, DefId)>, implementation: DefId) -> (result:
    Option<DefId>)
    ensures
        result == implemented_requirement(*methods, implementation),
    decreases methods,
{
    match methods {
        Chain::Empty => None,
        Chain::Link(link) => match find_implemented_requirement(&link.rest, implementation) {
            Some(found) => Some(found),
            None => if link.item.1 == implementation {
                Some(link.item.0)
            } else {
                None
            },
        },
    }
}

/// The callable whose contracts hold for the body: the requirement, if the
/// body implements one.
pub open spec fn contract_owner(cx: &Context) -> DefId {
    let owner = cx.environment.owner;
    match cx.program.kind_of(owner) {
        Some(DefinitionKind::Method { owner: container, signature: _ }) =>
            match cx.program.kind_of(container) {
                Some(
                    DefinitionKind::Conformance {
                        generic_params: _,
                        target: _,
                        concept: _,
                        associated_types: _,
                        methods: _,
                    },
                ) => match cx.conformances.lookup(container.0) {
                    Some(semantics) => match implemented_requirement(semantics.methods, owner) {
                        Some(requirement) => requirement,
                        None => owner,
                    },
                    None => owner,
                },
                _ => owner,
            },
        _ => owner,
    }
}

fn effective_contract_owner(cx: &Context) -> (result: DefId)
    ensures
        result == contract_owner(cx),
{
    let owner = cx.environment.owner;
    match cx.program.kind(owner) {
        Some(DefinitionKind::Method { owner: container, signature: _ }) =>
            match cx.program.kind(*container) {
                Some(
                    DefinitionKind::Conformance {
                        generic_params: _,
                        target: _,
                        concept: _,
                        associated_types: _,
                        methods: _,
                    },
                ) => match cx.conformances.get(container.0) {
                    Some(semantics) => match find_implemented_requirement(
                        &semantics.methods,
                        owner,
                    ) {
                        Some(requirement) => requirement,
                        None => owner,
                    },
                    None => owner,
                },
                _ => owner,
            },
        _ => owner,
    }
}

/// The symbolic value of a checked expression, and the facts with what its
/// type promises.
pub open spec fn checked_value(
    cx: &Context,
    w: World,
    e: Expr,
    facts: ProofFacts,
) -> (ProofTerm, ProofFacts) {
    let candidate = expr_term(cx, w.st, e, 0).unrefined();
    let value = if candidate.known() {
        candidate
    } else {
        root_term(ProofRoot::Expression { body: cx.body.0, expression: e.id.0 })
    };
    let facts = match w.type_of(e.id) {
        Some(ty) => match established_type(cx, w.st.semantics, w.data(ty), value) {
            Some(term) => facts.assumed(term, true),
            None => facts,
        },
        None => facts,
    };
    let facts = match w.st.semantics.expression_coercions.lookup(e.id.0) {
        Some(Coercion::RefinedToBase { refined }) => match established_definition(
            cx,
            w.st.semantics,
            refined,
            value,
        ) {
            Some(term) => facts.assumed(term, true),
            None => facts,
        },
        _ => facts,
    };
    (value, facts)
}

/// The field value with the given id.
pub open spec fn value_by_id(fields: Chain<RecordFieldValue>, id: ExprId) -> Option<Expr>
    decreases fields,
{
    match fields {
        Chain::Empty => None,
        Chain::Link(link) => if link.item.value.id == id {
            Some(link.item.value)
        } else {
            value_by_id(link.rest, id)
        },
    }
}

pub(crate) fn find_value<'a>(
    fields: &'a Chain<RecordFieldValue>,
    id: ExprId,
) -> (value: Option<&'a Expr>)
    ensures
        match value {
            Some(found) => value_by_id(*fields, id) == Some(*found),
            None => value_by_id(*fields, id) is None,
        },
    decreases fields,
{
    match fields {
        Chain::Empty => None,
        Chain::Link(link) => if link.item.value.id == id {
            Some(&link.item.value)
        } else {
            find_value(&link.rest, id)
        },
    }
}

/// The symbolic values of the fields of a record literal.
pub open spec fn checked_fields(
    cx: &Context,
    w: World,
    fields: Chain<(DefId, ExprId)>,
    values: Chain<RecordFieldValue>,
    facts: ProofFacts,
) -> (Chain<(DefId, ProofTerm)>, ProofFacts)
    decreases fields,
{
    match fields {
        Chain::Empty => (Chain::Empty, facts),
        Chain::Link(link) => {
            let (terms, facts) = checked_fields(cx, w, link.rest, values, facts);
            match value_by_id(values, link.item.1) {
                Some(e) => {
                    let (term, facts) = checked_value(cx, w, e, facts);
                    (terms.pushed((link.item.0, term)), facts)
                },
                None => (terms.pushed((link.item.0, ProofTerm::Unknown)), facts),
            }
        },
    }
}

impl World {
    /// What is known of the parameters when the body starts.
    #[verifier::opaque]
    pub open spec fn seed_param_proofs(self, cx: &Context, params: Chain<(ParamId, TyId)>) -> World
        decreases params,
    {
        match params {
            Chain::Empty => self,
            Chain::Link(link) => {
                let w = self.seed_param_proofs(cx, link.rest).assume_established_type(
                    cx,
                    link.item.1,
                    root_term(ProofRoot::Param(link.item.0.0)),
                );
                if cx.source.kind == BodyKind::Ensures {
                    w.assume_established_type(
                        cx,
                        link.item.1,
                        root_term(ProofRoot::OldParam(link.item.0.0)),
                    )
                } else {
                    w
                }
            },
        }
    }

    #[verifier::opaque]
    pub open spec fn seed_self_proofs(self, cx: &Context, self_ty: TyId) -> World {
        let value = root_term(ProofRoot::SelfValue);
        let w = if cx.source.kind == BodyKind::RecordInvariant {
            self.assume_established_record_fields(cx, self_ty, value)
        } else {
            self.assume_established_type(cx, self_ty, value)
        };
        if cx.source.kind == BodyKind::Ensures {
            w.assume_established_type(cx, self_ty, root_term(ProofRoot::OldSelf))
        } else {
            w
        }
    }

    #[verifier::opaque]
    pub open spec fn assume_contract(
        self,
        cx: &Context,
        contract: BodyId,
        self_value: Option<ProofTerm>,
        arguments: Chain<(ParamId, ProofTerm)>,
    ) -> World {
        self.assume_fact(
            contract_of(cx, self.st.semantics, contract, self_value, arguments),
            true,
        )
    }

    /// The contracts up to that of the body, in order. The result says whether
    /// the contract of the body was met.
    #[verifier::opaque]
    pub open spec fn assume_contracts_before(
        self,
        cx: &Context,
        contracts: Chain<BodyId>,
        self_value: Option<ProofTerm>,
        arguments: Chain<(ParamId, ProofTerm)>,
    ) -> (World, bool)
        decreases contracts,
    {
        match contracts {
            Chain::Empty => (self, false),
            Chain::Link(link) => {
                let (w, met) = self.assume_contracts_before(cx, link.rest, self_value, arguments);
                if met || link.item == cx.body {
                    (w, true)
                } else {
                    (w.assume_contract(cx, link.item, self_value, arguments), false)
                }
            },
        }
    }

    #[verifier::opaque]
    pub open spec fn assume_contracts(
        self,
        cx: &Context,
        contracts: Chain<BodyId>,
        self_value: Option<ProofTerm>,
        arguments: Chain<(ParamId, ProofTerm)>,
    ) -> World
        decreases contracts,
    {
        match contracts {
            Chain::Empty => self,
            Chain::Link(link) => self.assume_contracts(
                cx,
                link.rest,
                self_value,
                arguments,
            ).assume_contract(cx, link.item, self_value, arguments),
        }
    }

    /// The requirements as facts of the entry, under the current and the
    /// entry names of the parameters.
    #[verifier::opaque]
    pub open spec fn assume_entry_contracts(
        self,
        cx: &Context,
        contracts: Chain<BodyId>,
        entry_self: Option<ProofTerm>,
        current: Chain<(ParamId, ProofTerm)>,
        old_self: Option<ProofTerm>,
        at_entry: Chain<(ParamId, ProofTerm)>,
    ) -> World
        decreases contracts,
    {
        match contracts {
            Chain::Empty => self,
            Chain::Link(link) => self.assume_entry_contracts(
                cx,
                link.rest,
                entry_self,
                current,
                old_self,
                at_entry,
            ).assume_contract(cx, link.item, entry_self, current).assume_contract(
                cx,
                link.item,
                old_self,
                at_entry,
            ),
        }
    }

    #[verifier::opaque]
    pub open spec fn seed_contracts(self, cx: &Context) -> World {
        let owner = contract_owner(cx);
        let implementation = params_of(cx, cx.environment.owner);
        let current = argument_terms(params_of(cx, owner), implementation, false);
        let at_entry = argument_terms(params_of(cx, owner), implementation, true);
        let has_self = cx.environment.self_ty is Some;
        let current_self = if has_self {
            Some(root_term(ProofRoot::SelfValue))
        } else {
            None
        };
        let old_self = if has_self {
            Some(root_term(ProofRoot::OldSelf))
        } else {
            None
        };
        match cx.source.kind {
            BodyKind::Function => self.assume_contracts(
                cx,
                requires_of(cx, owner),
                current_self,
                current,
            ),
            BodyKind::Method => self.assume_contracts(
                cx,
                requires_of(cx, owner),
                current_self,
                current,
            ),
            BodyKind::Requires => self.assume_contracts_before(
                cx,
                requires_of(cx, owner),
                current_self,
                current,
            ).0,
            BodyKind::Ensures => {
                let w = self.assume_entry_contracts(
                    cx,
                    requires_of(cx, owner),
                    if cx.environment.receiver == Some(ReceiverKind::Mutable) {
                        old_self
                    } else {
                        current_self
                    },
                    current,
                    old_self,
                    at_entry,
                );
                if owner == cx.environment.owner {
                    w.assume_contracts_before(cx, ensures_of(cx, owner), None, Chain::Empty).0
                } else {
                    w
                }
            },
            _ => self,
        }
    }

    /// What is known when the body starts: what the types of the parameters,
    /// the receiver and the result promise, and the contracts that are checked
    /// before.
    #[verifier::opaque]
    pub open spec fn seed_entry_proofs(self, cx: &Context) -> World {
        let w = self.seed_param_proofs(cx, cx.environment.params);
        let w = match cx.environment.self_ty {
            Some(self_ty) => w.seed_self_proofs(cx, self_ty),
            None => w,
        };
        let w = match cx.environment.result_ty {
            Some(result_ty) => if cx.source.kind == BodyKind::Ensures {
                w.assume_established_type(cx, result_ty, root_term(ProofRoot::ResultValue))
            } else {
                w
            },
            None => w,
        };
        w.seed_contracts(cx)
    }

    /// Notes whether the contract in this body has to be checked when the
    /// program runs.
    #[verifier::opaque]
    pub open spec fn classify_contract_body(self, cx: &Context) -> World {
        match cx.source.kind {
            BodyKind::Constant => self,
            BodyKind::Function => self,
            BodyKind::Method => self,
            _ => {
                let term = contract_of(cx, self.st.semantics, cx.body, None, Chain::Empty);
                let w = self.ask(term);
                w.with_semantics(
                    BodySemantics {
                        contract_check: Some(
                            if w.st.flow.proof_facts.verdict(term) == ProofResult::Proven {
                                RuntimeCheck::Proven
                            } else {
                                RuntimeCheck::Runtime
                            },
                        ),
                        ..w.st.semantics
                    },
                )
            },
        }
    }

    /// Whether the value of `e` meets the predicate of a refined type.
    #[verifier::opaque]
    pub open spec fn refinement_proof(self, cx: &Context, definition: DefId, e: Expr) -> (
        World,
        ProofResult,
    ) {
        match cx.program.kind_of(definition) {
            Some(DefinitionKind::RefinedType { base: _, predicate }) => {
                let (value, facts) = checked_value(cx, self, e, self.st.flow.proof_facts);
                let term = contract_of(
                    cx,
                    self.st.semantics,
                    predicate,
                    Some(value),
                    Chain::Empty,
                );
                (self.ask(term), facts.verdict(term))
            },
            _ => (self, ProofResult::Unknown),
        }
    }

    /// Whether a record with these field values meets its invariant.
    #[verifier::opaque]
    pub open spec fn invariant_proof(
        self,
        cx: &Context,
        definition: DefId,
        fields: Chain<(DefId, ExprId)>,
        values: Chain<RecordFieldValue>,
    ) -> (World, ProofResult) {
        match cx.program.kind_of(definition) {
            Some(DefinitionKind::Record { generic_params: _, fields: _, invariant_body }) =>
                match invariant_body {
                    None => (self, ProofResult::Proven),
                    Some(contract) => {
                        let (terms, facts) = checked_fields(
                            cx,
                            self,
                            fields,
                            values,
                            self.st.flow.proof_facts,
                        );
                        let term = contract_of(
                            cx,
                            self.st.semantics,
                            contract,
                            Some(ProofTerm::Record { definition, fields: terms }),
                            Chain::Empty,
                        );
                        (self.ask(term), facts.verdict(term))
                    },
                },
            _ => (self, ProofResult::Unknown),
        }
    }

    /// The receiver expression of a call: the receiver of a method call, or
    /// the first argument.
    #[verifier::opaque]
    pub open spec fn invalidate_mutated_receiver(self, cx: &Context, e: Expr) -> World {
        let inout = match self.st.semantics.calls.lookup(e.id.0) {
            Some(call) => call.receiver == Some(ReceiverPassing::InOut),
            None => false,
        };
        if !inout {
            self
        } else {
            match receiver_of(e) {
                None => self,
                Some(receiver) => match (self.place_of(receiver), self.type_of(receiver)) {
                    (Some(place), Some(ty)) => self.invalidate_mutated_place(cx, place, ty),
                    _ => self,
                },
            }
        }
    }
}

/// The first element of a list.
pub open spec fn first_expr(list: Chain<Expr>) -> Option<ExprId>
    decreases list,
{
    match list {
        Chain::Empty => None,
        Chain::Link(link) => match first_expr(link.rest) {
            Some(first) => Some(first),
            None => Some(link.item.id),
        },
    }
}

fn find_first_expr(list: &Chain<Expr>) -> (first: Option<ExprId>)
    ensures
        first == first_expr(*list),
    decreases list,
{
    match list {
        Chain::Empty => None,
        Chain::Link(link) => match find_first_expr(&link.rest) {
            Some(first) => Some(first),
            None => Some(link.item.id),
        },
    }
}

/// The expression that a call has as receiver.
pub open spec fn receiver_of(e: Expr) -> Option<ExprId> {
    match e.kind {
        ExprKind::MethodCall { receiver, method: _, type_arguments: _, arguments: _ } => Some(
            receiver.id,
        ),
        ExprKind::QualifiedMethodCall {
            self_ty: _,
            concept: _,
            method: _,
            type_arguments: _,
            arguments,
        } => first_expr(arguments),
        ExprKind::Call { callee: _, type_arguments: _, arguments } => first_expr(arguments),
        _ => None,
    }
}

fn find_receiver(e: &Expr) -> (receiver: Option<ExprId>)
    ensures
        receiver == receiver_of(*e),
{
    match &e.kind {
        ExprKind::MethodCall { receiver, method: _, type_arguments: _, arguments: _ } => Some(
            receiver.id,
        ),
        ExprKind::QualifiedMethodCall {
            self_ty: _,
            concept: _,
            method: _,
            type_arguments: _,
            arguments,
        } => find_first_expr(arguments),
        ExprKind::Call { callee: _, type_arguments: _, arguments } => find_first_expr(arguments),
        _ => None,
    }
}

impl BodyChecker {
    fn seed_param_proofs(&mut self, cx: &Context, params: &Chain<(ParamId, TyId)>)
        requires
            old(self).wf(),
        ensures
            adds_to(old(self)@.st.diagnostics, final(self)@.st.diagnostics),
            final(self).wf(),
            later(old(self)@.types, final(self)@.types),
            final(self)@ == old(self)@.seed_param_proofs(cx, *params),
        decreases params,
    {
        proof {
            reveal(World::seed_param_proofs);
        }
        match params {
            Chain::Empty => {},
            Chain::Link(link) => {
                self.seed_param_proofs(cx, &link.rest);
                let term = make_root_term(ProofRoot::Param(link.item.0.0));
                self.assume_established_type(cx, link.item.1, &term);
                if cx.source.kind == BodyKind::Ensures {
                    let term = make_root_term(ProofRoot::OldParam(link.item.0.0));
                    self.assume_established_type(cx, link.item.1, &term);
                }
            },
        }
    }

    fn seed_self_proofs(&mut self, cx: &Context, self_ty: TyId)
        requires
            old(self).wf(),
        ensures
            adds_to(old(self)@.st.diagnostics, final(self)@.st.diagnostics),
            final(self).wf(),
            later(old(self)@.types, final(self)@.types),
            final(self)@ == old(self)@.seed_self_proofs(cx, self_ty),
    {
        proof {
            reveal(World::seed_self_proofs);
        }
        let value = make_root_term(ProofRoot::SelfValue);
        if cx.source.kind == BodyKind::RecordInvariant {
            // An invariant cannot prove itself, but what the types of the
            // fields promise is established before it runs.
            self.assume_established_record_fields(cx, self_ty, &value);
        } else {
            self.assume_established_type(cx, self_ty, &value);
        }
        if cx.source.kind == BodyKind::Ensures {
            let value = make_root_term(ProofRoot::OldSelf);
            self.assume_established_type(cx, self_ty, &value);
        }
    }

    fn assume_contract(
        &mut self,
        cx: &Context,
        contract: BodyId,
        self_value: &Option<ProofTerm>,
        arguments: &Chain<(ParamId, ProofTerm)>,
    )
        ensures
            adds_to(old(self)@.st.diagnostics, final(self)@.st.diagnostics),
            final(self)@.types == old(self)@.types,
            final(self)@ == old(self)@.assume_contract(cx, contract, *self_value, *arguments),
    {
        proof {
            reveal(World::assume_contract);
        }
        let term = contract_proof_term(
            cx,
            &self.st.semantics,
            contract,
            match self_value {
                Some(value) => Some(value),
                None => None,
            },
            arguments,
        );
        self.assume_fact(term, true);
    }

    fn assume_contracts_before(
        &mut self,
        cx: &Context,
        contracts: &Chain<BodyId>,
        self_value: &Option<ProofTerm>,
        arguments: &Chain<(ParamId, ProofTerm)>,
    ) -> (met: bool)
        ensures
            adds_to(old(self)@.st.diagnostics, final(self)@.st.diagnostics),
            final(self)@.types == old(self)@.types,
            (final(self)@, met) == old(self)@.assume_contracts_before(
                cx,
                *contracts,
                *self_value,
                *arguments,
            ),
        decreases contracts,
    {
        proof {
            reveal(World::assume_contracts_before);
        }
        match contracts {
            Chain::Empty => false,
            Chain::Link(link) => {
                if self.assume_contracts_before(cx, &link.rest, self_value, arguments) || link.item
                    == cx.body {
                    return true;
                }
                self.assume_contract(cx, link.item, self_value, arguments);
                false
            },
        }
    }

    fn assume_contracts(
        &mut self,
        cx: &Context,
        contracts: &Chain<BodyId>,
        self_value: &Option<ProofTerm>,
        arguments: &Chain<(ParamId, ProofTerm)>,
    )
        ensures
            adds_to(old(self)@.st.diagnostics, final(self)@.st.diagnostics),
            final(self)@.types == old(self)@.types,
            final(self)@ == old(self)@.assume_contracts(cx, *contracts, *self_value, *arguments),
        decreases contracts,
    {
        proof {
            reveal(World::assume_contracts);
        }
        match contracts {
            Chain::Empty => {},
            Chain::Link(link) => {
                self.assume_contracts(cx, &link.rest, self_value, arguments);
                self.assume_contract(cx, link.item, self_value, arguments);
            },
        }
    }

    fn assume_entry_contracts(
        &mut self,
        cx: &Context,
        contracts: &Chain<BodyId>,
        entry_self: &Option<ProofTerm>,
        current: &Chain<(ParamId, ProofTerm)>,
        old_self: &Option<ProofTerm>,
        at_entry: &Chain<(ParamId, ProofTerm)>,
    )
        ensures
            adds_to(old(self)@.st.diagnostics, final(self)@.st.diagnostics),
            final(self)@.types == old(self)@.types,
            final(self)@ == old(self)@.assume_entry_contracts(
                cx,
                *contracts,
                *entry_self,
                *current,
                *old_self,
                *at_entry,
            ),
        decreases contracts,
    {
        proof {
            reveal(World::assume_entry_contracts);
        }
        match contracts {
            Chain::Empty => {},
            Chain::Link(link) => {
                self.assume_entry_contracts(
                    cx,
                    &link.rest,
                    entry_self,
                    current,
                    old_self,
                    at_entry,
                );
                self.assume_contract(cx, link.item, entry_self, current);
                self.assume_contract(cx, link.item, old_self, at_entry);
            },
        }
    }

    fn seed_contracts(&mut self, cx: &Context)
        ensures
            adds_to(old(self)@.st.diagnostics, final(self)@.st.diagnostics),
            final(self)@.types == old(self)@.types,
            final(self)@ == old(self)@.seed_contracts(cx),
    {
        proof {
            reveal(World::seed_contracts);
        }
        let owner = effective_contract_owner(cx);
        let (requires_bodies, ensures_bodies) = contracts(cx, owner);
        let implementation = callable_params(cx, cx.environment.owner);
        let contract_params = callable_params(cx, owner);
        let current = make_argument_terms(&contract_params, &implementation, false);
        let has_self = cx.environment.self_ty.is_some();
        let current_self = if has_self {
            Some(make_root_term(ProofRoot::SelfValue))
        } else {
            None
        };
        match cx.source.kind {
            BodyKind::Function | BodyKind::Method => self.assume_contracts(
                cx,
                &requires_bodies,
                &current_self,
                &current,
            ),
            BodyKind::Requires => {
                // The contracts before this one were checked in source order.
                self.assume_contracts_before(cx, &requires_bodies, &current_self, &current);
            },
            BodyKind::Ensures => {
                let at_entry = make_argument_terms(&contract_params, &implementation, true);
                let old_self = if has_self {
                    Some(make_root_term(ProofRoot::OldSelf))
                } else {
                    None
                };
                // What was required of a mutable receiver held at the entry,
                // not of its value now.
                if cx.environment.receiver == Some(ReceiverKind::Mutable) {
                    self.assume_entry_contracts(
                        cx,
                        &requires_bodies,
                        &old_self,
                        &current,
                        &old_self,
                        &at_entry,
                    );
                } else {
                    self.assume_entry_contracts(
                        cx,
                        &requires_bodies,
                        &current_self,
                        &current,
                        &old_self,
                        &at_entry,
                    );
                }
                if owner == cx.environment.owner {
                    self.assume_contracts_before(cx, &ensures_bodies, &None, &Chain::new());
                }
            },
            _ => {},
        }
    }

    pub fn seed_entry_proofs(&mut self, cx: &Context)
        requires
            old(self).wf(),
        ensures
            adds_to(old(self)@.st.diagnostics, final(self)@.st.diagnostics),
            final(self).wf(),
            later(old(self)@.types, final(self)@.types),
            final(self)@ == old(self)@.seed_entry_proofs(cx),
    {
        proof {
            reveal(World::seed_entry_proofs);
        }
        self.seed_param_proofs(cx, &cx.environment.params);
        match cx.environment.self_ty {
            Some(self_ty) => self.seed_self_proofs(cx, self_ty),
            None => {},
        }
        match cx.environment.result_ty {
            Some(result_ty) => if cx.source.kind == BodyKind::Ensures {
                let term = make_root_term(ProofRoot::ResultValue);
                self.assume_established_type(cx, result_ty, &term);
            },
            None => {},
        }
        self.seed_contracts(cx);
    }

    pub fn classify_contract_body(&mut self, cx: &Context)
        ensures
            adds_to(old(self)@.st.diagnostics, final(self)@.st.diagnostics),
            final(self)@.types == old(self)@.types,
            final(self)@ == old(self)@.classify_contract_body(cx),
    {
        proof {
            reveal(World::classify_contract_body);
        }
        match cx.source.kind {
            BodyKind::Constant | BodyKind::Function | BodyKind::Method => {},
            _ => {
                let term = contract_proof_term(
                    cx,
                    &self.st.semantics,
                    cx.body,
                    None,
                    &Chain::new(),
                );
                self.ask(&term);
                let check = if self.st.flow.proof_facts.prove(&term) == ProofResult::Proven {
                    RuntimeCheck::Proven
                } else {
                    RuntimeCheck::Runtime
                };
                self.st.semantics.contract_check = Some(check);
            },
        }
    }

    fn checked_value_proof(&self, cx: &Context, e: &Expr, facts: &mut ProofFacts) -> (value:
        ProofTerm)
        requires
            self.wf(),
        ensures
            (value, *final(facts)) == checked_value(cx, self@, *e, *old(facts)),
    {
        let candidate = proof_term(cx, &self.st, e).unrefine();
        let value = if candidate.is_known() {
            candidate
        } else {
            make_root_term(ProofRoot::Expression { body: cx.body.0, expression: e.id.0 })
        };
        match self.type_of(e.id) {
            Some(ty) => {
                let data = self.data(ty);
                match established_type_term(cx, &self.st.semantics, &data, &value) {
                    Some(term) => facts.assume_fact(term, true),
                    None => {},
                }
            },
            None => {},
        }
        match self.st.semantics.expression_coercions.get(e.id.0) {
            Some(Coercion::RefinedToBase { refined }) => match established_definition_term(
                cx,
                &self.st.semantics,
                *refined,
                &value,
            ) {
                Some(term) => facts.assume_fact(term, true),
                None => {},
            },
            _ => {},
        }
        value
    }

    fn checked_field_proofs(
        &self,
        cx: &Context,
        fields: &Chain<(DefId, ExprId)>,
        values: &Chain<RecordFieldValue>,
        facts: &mut ProofFacts,
    ) -> (terms: Chain<(DefId, ProofTerm)>)
        requires
            self.wf(),
        ensures
            (terms, *final(facts)) == checked_fields(cx, self@, *fields, *values, *old(facts)),
        decreases fields,
    {
        match fields {
            Chain::Empty => Chain::new(),
            Chain::Link(link) => {
                let terms = self.checked_field_proofs(cx, &link.rest, values, facts);
                match find_value(values, link.item.1) {
                    Some(e) => {
                        let term = self.checked_value_proof(cx, e, facts);
                        terms.with((link.item.0, term))
                    },
                    None => terms.with((link.item.0, ProofTerm::Unknown)),
                }
            },
        }
    }

    pub fn refinement_proof(&mut self, cx: &Context, definition: DefId, e: &Expr) -> (result:
        ProofResult)
        requires
            old(self).wf(),
        ensures
            adds_to(old(self)@.st.diagnostics, final(self)@.st.diagnostics),
            final(self).wf(),
            later(old(self)@.types, final(self)@.types),
            (final(self)@, result) == old(self)@.refinement_proof(cx, definition, *e),
    {
        proof {
            reveal(World::refinement_proof);
        }
        match cx.program.kind(definition) {
            Some(DefinitionKind::RefinedType { base: _, predicate }) => {
                let mut facts = self.st.flow.proof_facts.clone();
                let value = self.checked_value_proof(cx, e, &mut facts);
                let term = contract_proof_term(
                    cx,
                    &self.st.semantics,
                    *predicate,
                    Some(&value),
                    &Chain::new(),
                );
                self.ask(&term);
                facts.prove(&term)
            },
            _ => ProofResult::Unknown,
        }
    }

    pub fn invariant_proof(
        &mut self,
        cx: &Context,
        definition: DefId,
        fields: &Chain<(DefId, ExprId)>,
        values: &Chain<RecordFieldValue>,
    ) -> (result: ProofResult)
        requires
            old(self).wf(),
        ensures
            adds_to(old(self)@.st.diagnostics, final(self)@.st.diagnostics),
            final(self).wf(),
            later(old(self)@.types, final(self)@.types),
            (final(self)@, result) == old(self)@.invariant_proof(
                cx,
                definition,
                *fields,
                *values,
            ),
    {
        proof {
            reveal(World::invariant_proof);
        }
        match cx.program.kind(definition) {
            Some(DefinitionKind::Record { generic_params: _, fields: _, invariant_body }) =>
                match invariant_body {
                    None => ProofResult::Proven,
                    Some(contract) => {
                        let mut facts = self.st.flow.proof_facts.clone();
                        let terms = self.checked_field_proofs(cx, fields, values, &mut facts);
                        let value = ProofTerm::Record { definition, fields: terms };
                        let term = contract_proof_term(
                            cx,
                            &self.st.semantics,
                            *contract,
                            Some(&value),
                            &Chain::new(),
                        );
                        self.ask(&term);
                        facts.prove(&term)
                    },
                },
            _ => ProofResult::Unknown,
        }
    }

    pub fn invalidate_mutated_receiver(&mut self, cx: &Context, e: &Expr)
        requires
            old(self).wf(),
        ensures
            adds_to(old(self)@.st.diagnostics, final(self)@.st.diagnostics),
            final(self).wf(),
            later(old(self)@.types, final(self)@.types),
            final(self)@ == old(self)@.invalidate_mutated_receiver(cx, *e),
    {
        proof {
            reveal(World::invalidate_mutated_receiver);
        }
        let inout = match self.st.semantics.calls.get(e.id.0) {
            Some(call) => match call.receiver {
                Some(ReceiverPassing::InOut) => true,
                _ => false,
            },
            None => false,
        };
        if !inout {
            return;
        }
        match find_receiver(e) {
            None => {},
            Some(receiver) => match (self.place(receiver), self.type_of(receiver)) {
                (Some(place), Some(ty)) => self.invalidate_mutated_place(cx, &place, ty),
                _ => {},
            },
        }
    }
}

} // verus!
