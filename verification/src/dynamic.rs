//! Concepts that may be used through dynamic views.

use vstd::prelude::*;

use crate::chain::Chain;
#[allow(unused_imports)]
use crate::diagnostics::{adds_to, lemma_adds_nothing, lemma_adds_one, lemma_adds_through};
use crate::hir::{get, BindingRef, CallableSource, DefinitionKind, Path, Program};
use crate::hir::{ReceiverKind, TypeArgumentRef, TypeRefKind};
#[allow(unused_imports)]
use crate::hir::{at, named};
use crate::ids::{DefId, ParamId, TypeRefId};
use crate::resolve::{Sources, RESOLUTION_LIMIT};
use crate::survey::Analyzer;
#[allow(unused_imports)]
use crate::survey::Survey;

verus! {

broadcast use {lemma_adds_nothing, lemma_adds_one, lemma_adds_through};

impl Program {
    /// The path is written with the name of another concept.
    pub open spec fn names_other_concept(self, path: Path, concept: DefId) -> bool {
        match path.segments {
            Chain::Link(link) => !named(self.name_of(concept), link.item.name@),
            Chain::Empty => self.name_of(concept) is Some,
        }
    }

    fn is_other_concept(&self, path: &Path, concept: DefId) -> (result: bool)
        ensures
            result == self.names_other_concept(*path, concept),
    {
        match &path.segments {
            Chain::Link(link) => !self.is_called(concept, &link.item.name),
            Chain::Empty => self.definition_name(concept).is_some(),
        }
    }

    /// A written type mentions `Self` other than in a projection of the
    /// concept.
    pub open spec fn leaks_self(self, reference: TypeRefId, concept: DefId, budget: u32) -> bool
        decreases budget, 0nat, 0nat,
    {
        if budget == 0 {
            false
        } else {
            let next = (budget - 1) as u32;
            match at(self.type_refs@, reference.0) {
                Some(found) => match found.kind {
                    TypeRefKind::SelfType => true,
                    TypeRefKind::Tuple(elements) => self.any_leaks(elements, concept, next),
                    TypeRefKind::Apply { constructor: _, arguments } => self.any_argument_leaks(
                        arguments,
                        concept,
                        next,
                    ),
                    TypeRefKind::Projection { self_ty: _, concept: written, associated: _ } =>
                        match written {
                            Some(path) => self.names_other_concept(path, concept),
                            None => false,
                        },
                    TypeRefKind::Dyn(target) => self.any_binding_leaks(
                        target.bindings,
                        concept,
                        next,
                    ),
                    TypeRefKind::Error => false,
                    TypeRefKind::Path(_) => false,
                },
                None => false,
            }
        }
    }

    pub open spec fn any_leaks(self, list: Chain<TypeRefId>, concept: DefId, budget: u32) -> bool
        decreases budget, 1nat, list.spec_len(),
    {
        match list {
            Chain::Empty => false,
            Chain::Link(link) => self.any_leaks(link.rest, concept, budget) || self.leaks_self(
                link.item,
                concept,
                budget,
            ),
        }
    }

    pub open spec fn any_argument_leaks(
        self,
        list: Chain<TypeArgumentRef>,
        concept: DefId,
        budget: u32,
    ) -> bool
        decreases budget, 1nat, list.spec_len(),
    {
        match list {
            Chain::Empty => false,
            Chain::Link(link) => self.any_argument_leaks(link.rest, concept, budget)
                || self.leaks_self(
                match link.item {
                    TypeArgumentRef::Type(ty) => ty,
                    TypeArgumentRef::Binding(binding) => binding.ty,
                },
                concept,
                budget,
            ),
        }
    }

    pub open spec fn any_binding_leaks(
        self,
        list: Chain<BindingRef>,
        concept: DefId,
        budget: u32,
    ) -> bool
        decreases budget, 1nat, list.spec_len(),
    {
        match list {
            Chain::Empty => false,
            Chain::Link(link) => self.any_binding_leaks(link.rest, concept, budget)
                || self.leaks_self(link.item.ty, concept, budget),
        }
    }

    fn type_ref_leaks_self(&self, reference: TypeRefId, concept: DefId, budget: u32) -> (leaks:
        bool)
        ensures
            leaks == self.leaks_self(reference, concept, budget),
        decreases budget, 0nat, 0nat,
    {
        if budget == 0 {
            return false;
        }
        let next: u32 = budget - 1;
        match get(&self.type_refs, reference.0) {
            Some(found) => match &found.kind {
                TypeRefKind::SelfType => true,
                TypeRefKind::Tuple(elements) => self.find_leak(elements, concept, next),
                TypeRefKind::Apply { constructor: _, arguments } => self.find_argument_leak(
                    arguments,
                    concept,
                    next,
                ),
                TypeRefKind::Projection { self_ty: _, concept: written, associated: _ } =>
                    match written {
                        Some(path) => self.is_other_concept(path, concept),
                        None => false,
                    },
                TypeRefKind::Dyn(target) => self.find_binding_leak(
                    &target.bindings,
                    concept,
                    next,
                ),
                TypeRefKind::Error => false,
                TypeRefKind::Path(_) => false,
            },
            None => false,
        }
    }

    fn find_leak(&self, list: &Chain<TypeRefId>, concept: DefId, budget: u32) -> (leaks: bool)
        ensures
            leaks == self.any_leaks(*list, concept, budget),
        decreases budget, 1nat, list.spec_len(),
    {
        match list {
            Chain::Empty => false,
            Chain::Link(link) => self.find_leak(&link.rest, concept, budget)
                || self.type_ref_leaks_self(link.item, concept, budget),
        }
    }

    fn find_argument_leak(
        &self,
        list: &Chain<TypeArgumentRef>,
        concept: DefId,
        budget: u32,
    ) -> (leaks: bool)
        ensures
            leaks == self.any_argument_leaks(*list, concept, budget),
        decreases budget, 1nat, list.spec_len(),
    {
        match list {
            Chain::Empty => false,
            Chain::Link(link) => self.find_argument_leak(&link.rest, concept, budget)
                || self.type_ref_leaks_self(
                match &link.item {
                    TypeArgumentRef::Type(ty) => *ty,
                    TypeArgumentRef::Binding(binding) => binding.ty,
                },
                concept,
                budget,
            ),
        }
    }

    fn find_binding_leak(
        &self,
        list: &Chain<BindingRef>,
        concept: DefId,
        budget: u32,
    ) -> (leaks: bool)
        ensures
            leaks == self.any_binding_leaks(*list, concept, budget),
        decreases budget, 1nat, list.spec_len(),
    {
        match list {
            Chain::Empty => false,
            Chain::Link(link) => self.find_binding_leak(&link.rest, concept, budget)
                || self.type_ref_leaks_self(link.item.ty, concept, budget),
        }
    }

    /// The written type of a parameter mentions `Self` where it must not.
    pub open spec fn param_leaks_self(self, parameter: ParamId, concept: DefId) -> bool {
        match at(self.params@, parameter.0) {
            Some(found) => self.leaks_self(found.ty, concept, RESOLUTION_LIMIT),
            None => false,
        }
    }

    fn check_param_leaks_self(&self, parameter: ParamId, concept: DefId) -> (leaks: bool)
        ensures
            leaks == self.param_leaks_self(parameter, concept),
    {
        match get(&self.params, parameter.0) {
            Some(found) => self.type_ref_leaks_self(found.ty, concept, RESOLUTION_LIMIT),
            None => false,
        }
    }
}

impl Survey {
    pub open spec fn report_param_leaks(
        self,
        program: &Program,
        concept: DefId,
        requirement: DefId,
        params: Chain<ParamId>,
    ) -> Survey
        decreases params,
    {
        match params {
            Chain::Empty => self,
            Chain::Link(link) => {
                let s = self.report_param_leaks(program, concept, requirement, link.rest);
                if program.param_leaks_self(link.item, concept) {
                    s.text_error(
                        "DynSelfLeak",
                        "dyn method may use Self only as its receiver or in associated projections",
                        program.span_of(requirement),
                    )
                } else {
                    s
                }
            },
        }
    }

    /// A dynamic method uses `Self` only as its receiver and in projections.
    #[verifier::opaque]
    pub open spec fn validate_dyn_self_uses(
        self,
        program: &Program,
        concept: DefId,
        requirement: DefId,
        signature: CallableSource,
    ) -> Survey {
        let s = self.report_param_leaks(program, concept, requirement, signature.params);
        let leaks = match signature.return_ty {
            Some(ty) => program.leaks_self(ty, concept, RESOLUTION_LIMIT),
            None => false,
        };
        if leaks {
            s.text_error(
                "DynSelfLeak",
                "dyn method may not return Self outside an associated projection",
                program.span_of(requirement),
            )
        } else {
            s
        }
    }

    /// A requirement of a dynamic concept can be called through a view.
    #[verifier::opaque]
    pub open spec fn validate_dynamic_requirement(
        self,
        program: &Program,
        concept: DefId,
        requirement: DefId,
    ) -> Survey {
        match program.kind_of(requirement) {
            Some(DefinitionKind::Method { owner: _, signature }) => {
                let s = if signature.receiver == Some(ReceiverKind::Static) {
                    self.text_error(
                        "DynStaticRequirement",
                        "dyn concept cannot contain a static method",
                        program.span_of(requirement),
                    )
                } else {
                    self
                };
                let s = if signature.generic_params is Link {
                    s.text_error(
                        "DynGenericMethod",
                        "dyn concept method cannot have method-specific type parameters",
                        program.span_of(requirement),
                    )
                } else {
                    s
                };
                s.validate_dyn_self_uses(program, concept, requirement, signature)
            },
            _ => self,
        }
    }

    pub open spec fn validate_dynamic_requirements(
        self,
        program: &Program,
        concept: DefId,
        requirements: Chain<DefId>,
    ) -> Survey
        decreases requirements,
    {
        match requirements {
            Chain::Empty => self,
            Chain::Link(link) => self.validate_dynamic_requirements(
                program,
                concept,
                link.rest,
            ).validate_dynamic_requirement(program, concept, link.item),
        }
    }

    /// The dynamic concepts below `count` are validated.
    pub open spec fn dynamic_validated(self, program: &Program, count: nat) -> Survey
        decreases count,
    {
        if count == 0 {
            self
        } else {
            let s = self.dynamic_validated(program, (count - 1) as nat);
            let concept = DefId((count - 1) as u32);
            match program.kind_of(concept) {
                Some(
                    DefinitionKind::Concept { dyn_capable: true, associated_types: _, requirements },
                ) => s.validate_dynamic_requirements(program, concept, requirements),
                _ => s,
            }
        }
    }

    /// Every requirement of a dynamic concept can be called through a view.
    pub open spec fn validate_dynamic_concepts(self, cx: &Sources) -> Survey {
        self.dynamic_validated(cx.program, cx.program.definitions@.len())
    }
}

impl Analyzer {
    fn report_param_leaks(
        &mut self,
        program: &Program,
        concept: DefId,
        requirement: DefId,
        params: &Chain<ParamId>,
    )
        ensures
            adds_to(old(self)@.names.diagnostics, final(self)@.names.diagnostics),
            final(self)@.names.types == old(self)@.names.types,
            final(self)@ == old(self)@.report_param_leaks(program, concept, requirement, *params),
        decreases params,
    {
        match params {
            Chain::Empty => {},
            Chain::Link(link) => {
                self.report_param_leaks(program, concept, requirement, &link.rest);
                if program.check_param_leaks_self(link.item, concept) {
                    self.text_error(
                        "DynSelfLeak",
                        "dyn method may use Self only as its receiver or in associated projections",
                        program.definition_span(requirement),
                    );
                }
            },
        }
    }

    fn validate_dyn_self_uses(
        &mut self,
        program: &Program,
        concept: DefId,
        requirement: DefId,
        signature: &CallableSource,
    )
        ensures
            adds_to(old(self)@.names.diagnostics, final(self)@.names.diagnostics),
            final(self)@.names.types == old(self)@.names.types,
            final(self)@ == old(self)@.validate_dyn_self_uses(
                program,
                concept,
                requirement,
                *signature,
            ),
    {
        proof {
            reveal(Survey::validate_dyn_self_uses);
        }
        self.report_param_leaks(program, concept, requirement, &signature.params);
        let leaks = match signature.return_ty {
            Some(ty) => program.type_ref_leaks_self(ty, concept, RESOLUTION_LIMIT),
            None => false,
        };
        if leaks {
            self.text_error(
                "DynSelfLeak",
                "dyn method may not return Self outside an associated projection",
                program.definition_span(requirement),
            );
        }
    }

    fn validate_dynamic_requirement(
        &mut self,
        program: &Program,
        concept: DefId,
        requirement: DefId,
    )
        ensures
            adds_to(old(self)@.names.diagnostics, final(self)@.names.diagnostics),
            final(self)@.names.types == old(self)@.names.types,
            final(self)@ == old(self)@.validate_dynamic_requirement(program, concept, requirement),
    {
        proof {
            reveal(Survey::validate_dynamic_requirement);
        }
        match program.kind(requirement) {
            Some(DefinitionKind::Method { owner: _, signature }) => {
                if signature.receiver == Some(ReceiverKind::Static) {
                    self.text_error(
                        "DynStaticRequirement",
                        "dyn concept cannot contain a static method",
                        program.definition_span(requirement),
                    );
                }
                if !signature.generic_params.is_empty() {
                    self.text_error(
                        "DynGenericMethod",
                        "dyn concept method cannot have method-specific type parameters",
                        program.definition_span(requirement),
                    );
                }
                self.validate_dyn_self_uses(program, concept, requirement, signature);
            },
            _ => {},
        }
    }

    fn validate_dynamic_requirements(
        &mut self,
        program: &Program,
        concept: DefId,
        requirements: &Chain<DefId>,
    )
        ensures
            adds_to(old(self)@.names.diagnostics, final(self)@.names.diagnostics),
            final(self)@.names.types == old(self)@.names.types,
            final(self)@ == old(self)@.validate_dynamic_requirements(
                program,
                concept,
                *requirements,
            ),
        decreases requirements,
    {
        match requirements {
            Chain::Empty => {},
            Chain::Link(link) => {
                self.validate_dynamic_requirements(program, concept, &link.rest);
                self.validate_dynamic_requirement(program, concept, link.item);
            },
        }
    }

    /// Checks that every requirement of a dynamic concept can be called
    /// through a view.
    pub fn validate_dynamic_concepts(&mut self, cx: &Sources)
        requires
            cx.program.fits(),
        ensures
            adds_to(old(self)@.names.diagnostics, final(self)@.names.diagnostics),
            final(self)@.names.types == old(self)@.names.types,
            final(self)@ == old(self)@.validate_dynamic_concepts(cx),
    {
        let ghost begun = self@;
        let count: u32 = cx.program.definitions.len() as u32;
        let mut i: u32 = 0;
        while i < count
            invariant
                adds_to(old(self)@.names.diagnostics, self@.names.diagnostics),
                i <= count,
                self@.names.types == begun.names.types,
                self@ == begun.dynamic_validated(cx.program, i as nat),
            decreases count - i,
        {
            match cx.program.kind(DefId(i)) {
                Some(
                    DefinitionKind::Concept { dyn_capable, associated_types: _, requirements },
                ) => {
                    if *dyn_capable {
                        self.validate_dynamic_requirements(cx.program, DefId(i), requirements);
                    }
                },
                _ => {},
            }
            i = i + 1;
        }
    }
}

} // verus!
