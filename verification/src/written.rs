//! The types that a body writes.

use vstd::prelude::*;

use crate::chain::Chain;
#[allow(unused_imports)]
use crate::diagnostics::{adds_to, lemma_adds_nothing, lemma_adds_one, lemma_adds_through};
#[allow(unused_imports)]
use crate::growth::{later, lemma_later_itself, lemma_later_through};
use crate::hir::ConceptRef;
use crate::ids::{LocalId, TyId, TypeRefId};
#[allow(unused_imports)]
use crate::resolve::Names;
use crate::resolve::{Sources, TypeResolver, RESOLUTION_LIMIT};
use crate::state::{BodyChecker, Context};
#[allow(unused_imports)]
use crate::state::{CheckState, World};
use crate::ty::{ConceptInstance, TyInterner};

verus! {

broadcast use {
    lemma_adds_nothing,
    lemma_adds_one,
    lemma_adds_through,
    lemma_later_itself,
    lemma_later_through,
};

pub open spec fn sources_of<'a>(cx: &Context<'a>) -> Sources<'a> {
    Sources { program: cx.program, items: cx.canonical_std_items }
}

fn make_sources<'a>(cx: &Context<'a>) -> (sources: Sources<'a>)
    ensures
        sources == sources_of(cx),
{
    Sources { program: cx.program, items: cx.canonical_std_items }
}

impl World {
    pub open spec fn names(self) -> Names {
        Names {
            types: self.types,
            type_refs: self.st.type_refs,
            diagnostics: self.st.diagnostics,
        }
    }

    pub open spec fn with_names(self, names: Names) -> World {
        World {
            types: names.types,
            st: CheckState {
                type_refs: names.type_refs,
                diagnostics: names.diagnostics,
                ..self.st
            },
        }
    }

    /// The type that a type written in the body stands for.
    #[verifier::opaque]
    pub open spec fn resolve_written(self, cx: &Context, reference: TypeRefId) -> (World, TyId) {
        let (n, ty) = self.names().resolve_type_ref(
            &sources_of(cx),
            reference,
            cx.environment.names,
            RESOLUTION_LIMIT,
        );
        (self.with_names(n), ty)
    }

    #[verifier::opaque]
    pub open spec fn resolve_written_types(self, cx: &Context, references: Chain<TypeRefId>) -> (
        World,
        Chain<TyId>,
    ) {
        let (n, types) = self.names().resolve_list(
            &sources_of(cx),
            references,
            cx.environment.names,
            RESOLUTION_LIMIT,
        );
        (self.with_names(n), types)
    }

    /// The concept that a concept written in the body stands for.
    #[verifier::opaque]
    pub open spec fn resolve_written_concept(self, cx: &Context, concept: ConceptRef) -> (
        World,
        Option<ConceptInstance>,
    ) {
        let (n, instance) = self.names().resolve_concept_ref(
            &sources_of(cx),
            concept.path,
            concept.bindings,
            cx.environment.names,
            false,
            RESOLUTION_LIMIT,
        );
        (self.with_names(n), instance)
    }

    /// The type that a local is declared with.
    #[verifier::opaque]
    pub open spec fn resolve_annotation(self, cx: &Context, local: LocalId) -> (
        World,
        Option<TyId>,
    ) {
        match cx.local_of(local) {
            Some(found) => match found.annotation {
                Some(annotation) => {
                    let (w, ty) = self.resolve_written(cx, annotation);
                    (w, Some(ty))
                },
                None => (self, None),
            },
            None => (self, None),
        }
    }
}

impl BodyChecker {
    /// Takes the types out, to be given back by `take_names`.
    fn lend_names(&mut self) -> (names: TypeResolver)
        ensures
            names@ == old(self)@.names(),
            final(self).st == old(self).st,
    {
        let mut types = TyInterner::new();
        std::mem::swap(&mut types, &mut self.types);
        TypeResolver {
            types,
            type_refs: self.st.type_refs.clone(),
            diagnostics: self.st.diagnostics.clone(),
        }
    }

    fn take_names(&mut self, names: TypeResolver)
        ensures
            final(self)@ == old(self)@.with_names(names@),
    {
        self.types = names.types;
        self.st.type_refs = names.type_refs;
        self.st.diagnostics = names.diagnostics;
    }

    pub fn resolve_written(&mut self, cx: &Context, reference: TypeRefId) -> (ty: TyId)
        requires
            old(self).wf(),
        ensures
            adds_to(old(self)@.st.diagnostics, final(self)@.st.diagnostics),
            final(self).wf(),
            later(old(self)@.types, final(self)@.types),
            (final(self)@, ty) == old(self)@.resolve_written(cx, reference),
    {
        proof {
            reveal(World::resolve_written);
        }
        let mut names = self.lend_names();
        let ty = names.resolve_type_ref(
            &make_sources(cx),
            reference,
            &cx.environment.names,
            RESOLUTION_LIMIT,
        );
        self.take_names(names);
        ty
    }

    pub fn resolve_written_types(&mut self, cx: &Context, references: &Chain<TypeRefId>) -> (types:
        Chain<TyId>)
        requires
            old(self).wf(),
        ensures
            adds_to(old(self)@.st.diagnostics, final(self)@.st.diagnostics),
            final(self).wf(),
            later(old(self)@.types, final(self)@.types),
            (final(self)@, types) == old(self)@.resolve_written_types(cx, *references),
    {
        proof {
            reveal(World::resolve_written_types);
        }
        let mut names = self.lend_names();
        let types = names.resolve_list(
            &make_sources(cx),
            references,
            &cx.environment.names,
            RESOLUTION_LIMIT,
        );
        self.take_names(names);
        types
    }

    pub fn resolve_written_concept(&mut self, cx: &Context, concept: &ConceptRef) -> (instance:
        Option<ConceptInstance>)
        requires
            old(self).wf(),
        ensures
            adds_to(old(self)@.st.diagnostics, final(self)@.st.diagnostics),
            final(self).wf(),
            later(old(self)@.types, final(self)@.types),
            (final(self)@, instance) == old(self)@.resolve_written_concept(cx, *concept),
    {
        proof {
            reveal(World::resolve_written_concept);
        }
        let mut names = self.lend_names();
        let instance = names.resolve_concept_ref(
            &make_sources(cx),
            &concept.path,
            &concept.bindings,
            &cx.environment.names,
            false,
            RESOLUTION_LIMIT,
        );
        self.take_names(names);
        instance
    }

    pub fn resolve_annotation(&mut self, cx: &Context, local: LocalId) -> (ty: Option<TyId>)
        requires
            old(self).wf(),
        ensures
            adds_to(old(self)@.st.diagnostics, final(self)@.st.diagnostics),
            final(self).wf(),
            later(old(self)@.types, final(self)@.types),
            (final(self)@, ty) == old(self)@.resolve_annotation(cx, local),
    {
        proof {
            reveal(World::resolve_annotation);
        }
        match cx.local(local) {
            Some(found) => match found.annotation {
                Some(annotation) => Some(self.resolve_written(cx, annotation)),
                None => None,
            },
            None => None,
        }
    }
}

} // verus!
