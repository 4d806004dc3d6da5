//! The check of a whole body.

use vstd::prelude::*;

use crate::chain::Chain;
#[allow(unused_imports)]
use crate::diagnostics::{adds_to, lemma_adds_nothing, lemma_adds_one, lemma_adds_through};
use crate::diagnostics::Diagnostic;
use crate::flow::FlowState;
#[allow(unused_imports)]
use crate::growth::{later, lemma_later_itself, lemma_later_through};
use crate::ids::{LocalId, RegionId, TyId};
#[allow(unused_imports)]
use crate::resolve::Names;
use crate::resolve::TypeResolver;
use crate::semantics::BodySemantics;
use crate::state::{
    BodyChecker, CheckState, Context, ContractMode, DynamicCoercionMode, ExpressionContext,
};
#[allow(unused_imports)]
use crate::state::World;
use crate::table::Table;

verus! {

broadcast use {
    lemma_adds_nothing,
    lemma_adds_one,
    lemma_adds_through,
    lemma_later_itself,
    lemma_later_through,
};

impl CheckState {
    /// The state in which the check of a body begins.
    pub open spec fn start(
        diagnostics: Chain<Diagnostic>,
        type_refs: Table<TyId>,
        contract: ContractMode,
    ) -> CheckState {
        CheckState {
            diagnostics,
            type_refs,
            semantics: BodySemantics::empty(),
            scopes: Chain::Empty.pushed(Chain::Empty),
            flow: FlowState::start(),
            contract,
            allow_dirty_self_projection: false,
            checking_assignment_target: false,
            checking_discard_operand: false,
            dynamic_coercion_mode: DynamicCoercionMode::Owned,
            regions: Chain::Empty.pushed(RegionId(0)),
            next_region: 1,
            next_view_token: 0,
            next_inout_scope: 0,
            scoped_locals: Chain::Empty,
            cleanup_depth: 0,
            active_defer_effects: Chain::Empty,
            current_defer_self_boundaries: Chain::Empty,
            reported_defer_self_boundaries: Chain::Empty,
            loop_flows: Chain::Empty,
            allow_await_here: false,
            checking_scoped_receiver: false,
            scoped_initializer: None,
            float_requests: Chain::Empty,
        }
    }

    pub fn new(
        diagnostics: Chain<Diagnostic>,
        type_refs: Table<TyId>,
        contract: ContractMode,
    ) -> (state: Self)
        ensures
            state == CheckState::start(diagnostics, type_refs, contract),
    {
        CheckState {
            diagnostics,
            type_refs,
            semantics: BodySemantics::new(),
            scopes: Chain::new().with(Chain::<LocalId>::new()),
            flow: FlowState::new(),
            contract,
            allow_dirty_self_projection: false,
            checking_assignment_target: false,
            checking_discard_operand: false,
            dynamic_coercion_mode: DynamicCoercionMode::Owned,
            regions: Chain::new().with(RegionId(0)),
            next_region: 1,
            next_view_token: 0,
            next_inout_scope: 0,
            scoped_locals: Chain::new(),
            cleanup_depth: 0,
            active_defer_effects: Chain::new(),
            current_defer_self_boundaries: Chain::new(),
            reported_defer_self_boundaries: Chain::new(),
            loop_flows: Chain::new(),
            allow_await_here: false,
            checking_scoped_receiver: false,
            scoped_initializer: None,
            float_requests: Chain::new(),
        }
    }
}

impl World {
    /// The check of a body begins.
    pub open spec fn start(names: Names, contract: ContractMode) -> World {
        World {
            types: names.types,
            st: CheckState::start(names.diagnostics, names.type_refs, contract),
        }
    }

    /// An async callable must not complete with a value that carries tasks.
    #[verifier::opaque]
    pub open spec fn reject_async_task_result(self, cx: &Context) -> World {
        if cx.environment.is_async {
            let (w, task) = self.has_task_obligation(cx, cx.environment.return_ty);
            if task {
                w.text_error(
                    "TaskAsyncResultUnsupported",
                    "an async callable cannot complete with a Task-carrying result before runtime reparenting is available",
                    cx.source.span,
                )
            } else {
                w
            }
        } else {
            self
        }
    }

    /// The body is checked.
    pub open spec fn check(self, cx: &Context) -> World {
        let w = self.seed_entry_proofs(cx).seed_task_obligations(cx).reject_async_task_result(cx);
        let (w, _) = w.check_expr(
            cx,
            cx.source.root,
            Some(cx.environment.expected_root),
            ExpressionContext::Value,
        );
        w.check_parameter_task_obligations(cx).classify_contract_body(cx)
    }
}

impl BodyChecker {
    pub fn new(names: TypeResolver, contract: ContractMode) -> (checker: Self)
        ensures
            checker@ == World::start(names@, contract),
            checker.wf() == names.wf(),
    {
        BodyChecker {
            types: names.types,
            st: CheckState::new(names.diagnostics, names.type_refs, contract),
        }
    }

    fn reject_async_task_result(&mut self, cx: &Context)
        requires
            old(self).wf(),
        ensures
            adds_to(old(self)@.st.diagnostics, final(self)@.st.diagnostics),
            final(self).wf(),
            later(old(self)@.types, final(self)@.types),
            final(self)@ == old(self)@.reject_async_task_result(cx),
    {
        proof {
            reveal(World::reject_async_task_result);
        }
        if cx.environment.is_async {
            if self.has_task_obligation(cx, cx.environment.return_ty) {
                self.text_error(
                    "TaskAsyncResultUnsupported",
                    "an async callable cannot complete with a Task-carrying result before runtime reparenting is available",
                    cx.source.span,
                );
            }
        }
    }

    /// Checks the body.
    pub fn check(&mut self, cx: &Context)
        requires
            old(self).wf(),
        ensures
            adds_to(old(self)@.st.diagnostics, final(self)@.st.diagnostics),
            final(self).wf(),
            later(old(self)@.types, final(self)@.types),
            final(self)@ == old(self)@.check(cx),
    {
        self.seed_entry_proofs(cx);
        self.seed_task_obligations(cx);
        self.reject_async_task_result(cx);
        self.check_expr(
            cx,
            &cx.source.root,
            Some(cx.environment.expected_root),
            ExpressionContext::Value,
        );
        self.check_parameter_task_obligations(cx);
        self.classify_contract_body(cx);
    }
}

} // verus!
