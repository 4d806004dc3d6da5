//! The declarations of the standard library that the language knows.

use vstd::prelude::*;

use crate::chain::Chain;
#[allow(unused_imports)]
use crate::diagnostics::{adds_to, lemma_adds_nothing, lemma_adds_one, lemma_adds_through};
use crate::hir::{get, text_is, CallableSource, Definition, DefinitionKind, Program, ReceiverKind};
#[allow(unused_imports)]
use crate::hir::{at, named};
use crate::ids::DefId;
use crate::resolve::Sources;
use crate::semantics::{CanonicalConcepts, CanonicalStdItems, Signature};
use crate::survey::Analyzer;
#[allow(unused_imports)]
use crate::survey::Survey;
use crate::ty::BuiltinType;
#[allow(unused_imports)]
use crate::ty::builtin_ty;

verus! {

broadcast use {lemma_adds_nothing, lemma_adds_one, lemma_adds_through};

/// The kinds of declarations that are looked for.
#[derive(Clone, Copy, Debug, PartialEq, Eq, Structural)]
pub enum ItemKind {
    Concept,
    Enum,
    Function,
    Record,
}

/// The declaration is of the kind.
pub open spec fn is_of_kind(kind: DefinitionKind, expected: ItemKind) -> bool {
    match expected {
        ItemKind::Concept => kind is Concept,
        ItemKind::Enum => kind is Enum,
        ItemKind::Function => kind is Function,
        ItemKind::Record => kind is Record,
    }
}

fn check_kind(kind: &DefinitionKind, expected: ItemKind) -> (result: bool)
    ensures
        result == is_of_kind(*kind, expected),
{
    match (expected, kind) {
        (
            ItemKind::Concept,
            DefinitionKind::Concept { dyn_capable: _, associated_types: _, requirements: _ },
        ) => true,
        (ItemKind::Enum, DefinitionKind::Enum { generic_params: _, variants: _ }) => true,
        (ItemKind::Function, DefinitionKind::Function { signature: _, is_async: _ }) => true,
        (
            ItemKind::Record,
            DefinitionKind::Record { generic_params: _, fields: _, invariant_body: _ },
        ) => true,
        _ => false,
    }
}

impl Program {
    /// The declaration stands in a module of the standard library, under the
    /// given name and of the given kind.
    pub open spec fn is_standard_item(
        self,
        item: Definition,
        module: Seq<char>,
        name: Seq<char>,
        kind: ItemKind,
    ) -> bool {
        match at(self.modules@, item.module.0) {
            Some(found) => found.package.is_std_of(self.language@) && found.name@ == module && named(item.name, name)
                && is_of_kind(item.kind, kind),
            None => false,
        }
    }

    fn check_standard_item(&self, item: &Definition, module: &str, name: &str, kind: ItemKind) -> (
    result: bool)
        ensures
            result == self.is_standard_item(*item, module@, name@, kind),
    {
        match get(&self.modules, item.module.0) {
            Some(found) => found.package.is_compiler_std(&self.language) && text_is(
                &found.name,
                module,
            ) && match &item.name {
                Some(written) => text_is(written, name),
                None => false,
            } && check_kind(&item.kind, kind),
            None => false,
        }
    }

    /// The first declaration of the standard library at or behind `start`
    /// that has the module, the name and the kind.
    pub open spec fn standard_item_from(
        self,
        start: nat,
        module: Seq<char>,
        name: Seq<char>,
        kind: ItemKind,
    ) -> Option<DefId>
        decreases self.definitions@.len() - start,
    {
        if start >= self.definitions@.len() {
            None
        } else if self.is_standard_item(self.definitions@[start as int], module, name, kind) {
            Some(DefId(start as u32))
        } else {
            self.standard_item_from(start + 1, module, name, kind)
        }
    }

    pub open spec fn standard_item(
        self,
        module: Seq<char>,
        name: Seq<char>,
        kind: ItemKind,
    ) -> Option<DefId> {
        self.standard_item_from(0, module, name, kind)
    }

    fn resolve_compiler_std_definition(&self, module: &str, name: &str, kind: ItemKind) -> (item:
        Option<DefId>)
        requires
            self.fits(),
        ensures
            item == self.standard_item(module@, name@, kind),
    {
        let count: u32 = self.definitions.len() as u32;
        let mut i: u32 = 0;
        while i < count
            invariant
                i <= count,
                count == self.definitions@.len(),
                self.standard_item(module@, name@, kind) == self.standard_item_from(
                    i as nat,
                    module@,
                    name@,
                    kind,
                ),
            decreases count - i,
        {
            if self.check_standard_item(&self.definitions[i as usize], module, name, kind) {
                return Some(DefId(i));
            }
            i = i + 1;
        }
        None
    }

    /// A concept of the resource module.
    pub open spec fn language_concept(self, name: Seq<char>) -> Option<DefId> {
        self.standard_item("std.resource"@, name, ItemKind::Concept)
    }

    fn resolve_language_concept(&self, name: &str) -> (concept: Option<DefId>)
        requires
            self.fits(),
        ensures
            concept == self.language_concept(name@),
    {
        self.resolve_compiler_std_definition("std.resource", name, ItemKind::Concept)
    }

    /// The concepts that the language knows.
    pub open spec fn canonical_concepts(self) -> CanonicalConcepts {
        let dispose = self.language_concept("Dispose"@);
        CanonicalConcepts {
            dispose,
            dispose_requirement: match dispose {
                Some(concept) => self.requirement_named(concept, "dispose"@),
                None => None,
            },
            must_scope: self.language_concept("MustScope"@),
            no_suspend: self.language_concept("NoSuspend"@),
        }
    }

    /// Finds the concepts that the language knows.
    pub fn resolve_canonical_concepts(&self) -> (concepts: CanonicalConcepts)
        requires
            self.fits(),
        ensures
            concepts == self.canonical_concepts(),
    {
        let dispose = self.resolve_language_concept("Dispose");
        CanonicalConcepts {
            dispose,
            dispose_requirement: match dispose {
                Some(concept) => self.concept_method(concept, &"dispose".to_owned()),
                None => None,
            },
            must_scope: self.resolve_language_concept("MustScope"),
            no_suspend: self.resolve_language_concept("NoSuspend"),
        }
    }

    /// The declarations of the standard library that the language knows.
    pub open spec fn canonical_std_items(self) -> CanonicalStdItems {
        CanonicalStdItems {
            is_finite: self.standard_item("std.float"@, "is_finite"@, ItemKind::Function),
            decode_text_error: self.standard_item(
                "std.text"@,
                "DecodeTextError"@,
                ItemKind::Enum,
            ),
            file: self.standard_item("std.file"@, "File"@, ItemKind::Record),
            io_error: self.standard_item("std.io"@, "IoError"@, ItemKind::Record),
            io_error_kind: self.standard_item("std.io"@, "IoErrorKind"@, ItemKind::Enum),
            json: self.standard_item("std.json"@, "Json"@, ItemKind::Enum),
            json_error: self.standard_item("std.json"@, "JsonError"@, ItemKind::Enum),
            log_level: self.standard_item("std.log"@, "LogLevel"@, ItemKind::Enum),
            path_error: self.standard_item("std.path"@, "PathError"@, ItemKind::Enum),
            socket: self.standard_item("std.net"@, "Socket"@, ItemKind::Record),
        }
    }

    /// Finds the declarations of the standard library that the language knows.
    pub fn resolve_canonical_std_items(&self) -> (items: CanonicalStdItems)
        requires
            self.fits(),
        ensures
            items == self.canonical_std_items(),
    {
        CanonicalStdItems {
            is_finite: self.resolve_compiler_std_definition(
                "std.float",
                "is_finite",
                ItemKind::Function,
            ),
            decode_text_error: self.resolve_compiler_std_definition(
                "std.text",
                "DecodeTextError",
                ItemKind::Enum,
            ),
            file: self.resolve_compiler_std_definition("std.file", "File", ItemKind::Record),
            io_error: self.resolve_compiler_std_definition("std.io", "IoError", ItemKind::Record),
            io_error_kind: self.resolve_compiler_std_definition(
                "std.io",
                "IoErrorKind",
                ItemKind::Enum,
            ),
            json: self.resolve_compiler_std_definition("std.json", "Json", ItemKind::Enum),
            json_error: self.resolve_compiler_std_definition(
                "std.json",
                "JsonError",
                ItemKind::Enum,
            ),
            log_level: self.resolve_compiler_std_definition("std.log", "LogLevel", ItemKind::Enum),
            path_error: self.resolve_compiler_std_definition(
                "std.path",
                "PathError",
                ItemKind::Enum,
            ),
            socket: self.resolve_compiler_std_definition("std.net", "Socket", ItemKind::Record),
        }
    }

    /// The concept has neither associated types nor requirements, and no
    /// dynamic views.
    pub open spec fn is_marker(self, concept: DefId) -> bool {
        match self.kind_of(concept) {
            Some(DefinitionKind::Concept { dyn_capable, associated_types, requirements }) =>
                !dyn_capable && associated_types is Empty && requirements is Empty,
            _ => true,
        }
    }

    fn check_marker(&self, concept: DefId) -> (result: bool)
        ensures
            result == self.is_marker(concept),
    {
        match self.kind(concept) {
            Some(DefinitionKind::Concept { dyn_capable, associated_types, requirements }) =>
                !*dyn_capable && associated_types.is_empty() && requirements.is_empty(),
            _ => true,
        }
    }
}

/// The list holds one definition and nothing else.
pub open spec fn is_only(list: Chain<DefId>, item: DefId) -> bool {
    list == Chain::Empty.pushed(item)
}

fn check_only(list: &Chain<DefId>, item: DefId) -> (result: bool)
    ensures
        result == is_only(*list, item),
{
    match list {
        Chain::Empty => false,
        Chain::Link(link) => link.item == item && link.rest.is_empty(),
    }
}

/// The signature is written `(mut self)`, without contracts.
pub open spec fn is_dispose_source(source: CallableSource) -> bool {
    source.receiver == Some(ReceiverKind::Mutable) && source.generic_params is Empty
        && source.params is Empty && source.requires is Empty && source.ensures is Empty
}

fn check_dispose_source(source: &CallableSource) -> (result: bool)
    ensures
        result == is_dispose_source(*source),
{
    source.receiver == Some(ReceiverKind::Mutable) && source.generic_params.is_empty()
        && source.params.is_empty() && source.requires.is_empty() && source.ensures.is_empty()
}

impl Survey {
    /// A marker of the resource module is an empty concept.
    #[verifier::opaque]
    pub open spec fn validate_marker(
        self,
        program: &Program,
        concept: Option<DefId>,
        text: &'static str,
    ) -> Survey {
        match concept {
            Some(definition) => if program.is_marker(definition) {
                self
            } else {
                self.text_error("InvalidResourceMarker", text, program.span_of(definition))
            },
            None => self,
        }
    }

    /// The requirement is `method dispose(mut self)` without contracts.
    #[verifier::opaque]
    pub open spec fn is_dispose_method(self, program: &Program, requirement: DefId) -> bool {
        &&& program.has_name(requirement, "dispose"@)
        &&& match program.kind_of(requirement) {
            Some(DefinitionKind::Method { owner: _, signature }) => is_dispose_source(signature),
            _ => false,
        }
        &&& match self.signature_of(requirement) {
            Some(Signature::Callable(signature)) => !signature.is_async && signature.return_ty
                == builtin_ty(BuiltinType::Unit),
            _ => false,
        }
    }

    /// The concept holds only the method that disposes.
    #[verifier::opaque]
    pub open spec fn is_dispose_concept(
        self,
        program: &Program,
        concept: DefId,
        requirement: Option<DefId>,
    ) -> bool {
        match program.kind_of(concept) {
            Some(DefinitionKind::Concept { dyn_capable, associated_types, requirements }) =>
                !dyn_capable && associated_types is Empty && match requirement {
                    Some(found) => is_only(requirements, found) && self.is_dispose_method(
                        program,
                        found,
                    ),
                    None => false,
                },
            _ => true,
        }
    }

    /// The concepts of the resource module have the form that the language
    /// relies on.
    pub open spec fn validate_resource_concepts(
        self,
        cx: &Sources,
        canonical: CanonicalConcepts,
    ) -> Survey {
        let s = self.validate_marker(
            cx.program,
            canonical.must_scope,
            "std.resource.MustScope must be an empty, non-dyn marker concept",
        ).validate_marker(
            cx.program,
            canonical.no_suspend,
            "std.resource.NoSuspend must be an empty, non-dyn marker concept",
        );
        match canonical.dispose {
            Some(definition) => if s.is_dispose_concept(
                cx.program,
                definition,
                canonical.dispose_requirement,
            ) {
                s
            } else {
                s.text_error(
                    "InvalidDisposeConcept",
                    "std.resource.Dispose must be a non-dyn concept containing only `method dispose(mut self)` without contracts",
                    cx.program.span_of(definition),
                )
            },
            None => s,
        }
    }
}

impl Analyzer {
    fn validate_marker(
        &mut self,
        program: &Program,
        concept: Option<DefId>,
        text: &'static str,
    )
        ensures
            adds_to(old(self)@.names.diagnostics, final(self)@.names.diagnostics),
            final(self)@.names.types == old(self)@.names.types,
            final(self)@ == old(self)@.validate_marker(program, concept, text),
    {
        proof {
            reveal(Survey::validate_marker);
        }
        match concept {
            Some(definition) => {
                if !program.check_marker(definition) {
                    self.text_error(
                        "InvalidResourceMarker",
                        text,
                        program.definition_span(definition),
                    );
                }
            },
            None => {},
        }
    }

    fn is_dispose_method(&self, program: &Program, requirement: DefId) -> (result: bool)
        ensures
            result == self@.is_dispose_method(program, requirement),
    {
        proof {
            reveal(Survey::is_dispose_method);
        }
        program.is_called(requirement, &"dispose".to_owned()) && match program.kind(requirement) {
            Some(DefinitionKind::Method { owner: _, signature }) => check_dispose_source(signature),
            _ => false,
        } && match self.st.signatures.get(requirement.0) {
            Some(Signature::Callable(signature)) => !signature.is_async && signature.return_ty
                == self.names.types.builtin(BuiltinType::Unit),
            _ => false,
        }
    }

    fn is_dispose_concept(
        &self,
        program: &Program,
        concept: DefId,
        requirement: Option<DefId>,
    ) -> (result: bool)
        ensures
            result == self@.is_dispose_concept(program, concept, requirement),
    {
        proof {
            reveal(Survey::is_dispose_concept);
        }
        match program.kind(concept) {
            Some(DefinitionKind::Concept { dyn_capable, associated_types, requirements }) =>
                !*dyn_capable && associated_types.is_empty() && match requirement {
                    Some(found) => check_only(requirements, found) && self.is_dispose_method(
                        program,
                        found,
                    ),
                    None => false,
                },
            _ => true,
        }
    }

    /// Checks that the concepts of the resource module have the form that the
    /// language relies on.
    pub fn validate_resource_concepts(&mut self, cx: &Sources, canonical: CanonicalConcepts)
        ensures
            adds_to(old(self)@.names.diagnostics, final(self)@.names.diagnostics),
            final(self)@.names.types == old(self)@.names.types,
            final(self)@ == old(self)@.validate_resource_concepts(cx, canonical),
    {
        self.validate_marker(
            cx.program,
            canonical.must_scope,
            "std.resource.MustScope must be an empty, non-dyn marker concept",
        );
        self.validate_marker(
            cx.program,
            canonical.no_suspend,
            "std.resource.NoSuspend must be an empty, non-dyn marker concept",
        );
        match canonical.dispose {
            Some(definition) => {
                if !self.is_dispose_concept(
                    cx.program,
                    definition,
                    canonical.dispose_requirement,
                ) {
                    self.text_error(
                        "InvalidDisposeConcept",
                        "std.resource.Dispose must be a non-dyn concept containing only `method dispose(mut self)` without contracts",
                        cx.program.definition_span(definition),
                    );
                }
            },
            None => {},
        }
    }
}

} // verus!
