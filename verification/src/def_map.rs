//! The names of modules, and what imports bring into their files.

use vstd::prelude::*;

use crate::chain::Chain;
use crate::diagnostics::{Diagnostic, Label, Message};
#[allow(unused_imports)]
use crate::diagnostics::plain;
use crate::hir::{
    get, DefinitionKind, Import, ImportTarget, Program, Resolved, Segment, Visibility,
};
#[allow(unused_imports)]
use crate::hir::at;
use crate::ids::{DefId, ModuleId};
#[allow(unused_imports)]
use crate::module_graph::{has_module_part, is_provided};
use crate::module_graph::{check_module_part, check_provided};
use crate::order::name_less;
#[allow(unused_imports)]
use crate::order::{law_text_order, text_less};
use crate::table::Table;

verus! {

/// The kinds of names that do not clash with each other.
#[derive(Clone, Copy, Debug, PartialEq, Eq, PartialOrd, Ord, Hash, Structural)]
pub enum Namespace {
    Type,
    Value,
    Concept,
}

/// What a name stands for.
pub enum Binding {
    Unique(DefId),
    Duplicate(Chain<DefId>),
}

impl Clone for Binding {
    fn clone(&self) -> (copy: Self)
        ensures
            copy == *self,
    {
        match self {
            Binding::Unique(definition) => Binding::Unique(*definition),
            Binding::Duplicate(definitions) => Binding::Duplicate(definitions.clone()),
        }
    }
}

pub open spec fn has_definition(list: Chain<DefId>, definition: DefId) -> bool
    decreases list,
{
    match list {
        Chain::Empty => false,
        Chain::Link(link) => link.item == definition || has_definition(link.rest, definition),
    }
}

fn contains_definition(list: &Chain<DefId>, definition: DefId) -> (result: bool)
    ensures
        result == has_definition(*list, definition),
    decreases list,
{
    match list {
        Chain::Empty => false,
        Chain::Link(link) => link.item == definition || contains_definition(
            &link.rest,
            definition,
        ),
    }
}

/// The list with a definition behind those with lesser ids.
pub open spec fn definition_placed(list: Chain<DefId>, definition: DefId) -> Chain<DefId>
    decreases list,
{
    match list {
        Chain::Empty => list.pushed(definition),
        Chain::Link(link) => if definition.0 < link.item.0 {
            definition_placed(link.rest, definition).pushed(link.item)
        } else {
            list.pushed(definition)
        },
    }
}

fn place_definition(list: &Chain<DefId>, definition: DefId) -> (placed: Chain<DefId>)
    ensures
        placed == definition_placed(*list, definition),
    decreases list,
{
    match list {
        Chain::Empty => list.clone().with(definition),
        Chain::Link(link) => if definition.0 < link.item.0 {
            place_definition(&link.rest, definition).with(link.item)
        } else {
            list.clone().with(definition)
        },
    }
}

/// The definitions ordered by their ids.
pub open spec fn definitions_sorted(list: Chain<DefId>) -> Chain<DefId>
    decreases list,
{
    match list {
        Chain::Empty => Chain::Empty,
        Chain::Link(link) => definition_placed(definitions_sorted(link.rest), link.item),
    }
}

fn sort_definitions(list: &Chain<DefId>) -> (sorted: Chain<DefId>)
    ensures
        sorted == definitions_sorted(*list),
    decreases list,
{
    match list {
        Chain::Empty => Chain::new(),
        Chain::Link(link) => place_definition(&sort_definitions(&link.rest), link.item),
    }
}

impl Binding {
    /// The definition, if the name stands for only one.
    pub open spec fn only(self) -> Option<DefId> {
        match self {
            Binding::Unique(definition) => Some(definition),
            Binding::Duplicate(_) => None,
        }
    }

    /// All definitions that the name stands for.
    pub open spec fn all(self) -> Chain<DefId> {
        match self {
            Binding::Unique(definition) => Chain::Empty.pushed(definition),
            Binding::Duplicate(definitions) => definitions,
        }
    }

    /// The name stands for one more definition, unless it does already.
    pub open spec fn merged(self, definition: DefId) -> Binding {
        match self {
            Binding::Unique(previous) => if previous != definition {
                Binding::Duplicate(Chain::Empty.pushed(previous).pushed(definition))
            } else {
                self
            },
            Binding::Duplicate(definitions) => if has_definition(definitions, definition) {
                self
            } else {
                Binding::Duplicate(definitions_sorted(definitions.pushed(definition)))
            },
        }
    }

    pub fn unique(&self) -> (definition: Option<DefId>)
        ensures
            definition == self.only(),
    {
        match self {
            Binding::Unique(definition) => Some(*definition),
            Binding::Duplicate(_) => None,
        }
    }

    pub fn candidates(&self) -> (definitions: Chain<DefId>)
        ensures
            definitions == self.all(),
    {
        match self {
            Binding::Unique(definition) => Chain::new().with(*definition),
            Binding::Duplicate(definitions) => definitions.clone(),
        }
    }

    /// Adds a definition to those that the name stands for.
    pub fn merge(&mut self, definition: DefId)
        ensures
            *final(self) == old(self).merged(definition),
    {
        let merged = match self {
            Binding::Unique(previous) => if *previous != definition {
                Some(Chain::new().with(*previous).with(definition))
            } else {
                None
            },
            Binding::Duplicate(definitions) => if contains_definition(definitions, definition) {
                None
            } else {
                Some(sort_definitions(&definitions.clone().with(definition)))
            },
        };
        match merged {
            Some(definitions) => {
                *self = Binding::Duplicate(definitions);
            },
            None => {},
        }
    }
}

/// What a name stands for among entries.
pub open spec fn entry_of(entries: Chain<(String, Binding)>, name: Seq<char>) -> Option<Binding>
    decreases entries,
{
    match entries {
        Chain::Empty => None,
        Chain::Link(link) => if link.item.0@ == name {
            Some(link.item.1)
        } else {
            entry_of(link.rest, name)
        },
    }
}

fn find_entry<'a>(entries: &'a Chain<(String, Binding)>, name: &String) -> (binding: Option<
    &'a Binding,
>)
    ensures
        match binding {
            Some(found) => entry_of(*entries, name@) == Some(*found),
            None => entry_of(*entries, name@) is None,
        },
    decreases entries,
{
    match entries {
        Chain::Empty => None,
        Chain::Link(link) => if link.item.0 == *name {
            Some(&link.item.1)
        } else {
            find_entry(&link.rest, name)
        },
    }
}

/// The entries, ordered by name, with one more definition for a name.
pub open spec fn entry_inserted(
    entries: Chain<(String, Binding)>,
    name: String,
    definition: DefId,
) -> Chain<(String, Binding)>
    decreases entries,
{
    match entries {
        Chain::Empty => entries.pushed((name, Binding::Unique(definition))),
        Chain::Link(link) => if link.item.0@ == name@ {
            link.rest.pushed((link.item.0, link.item.1.merged(definition)))
        } else if text_less(name@, link.item.0@) {
            entry_inserted(link.rest, name, definition).pushed(link.item)
        } else {
            entries.pushed((name, Binding::Unique(definition)))
        },
    }
}

fn insert_entry(entries: &Chain<(String, Binding)>, name: &String, definition: DefId) -> (result:
    Chain<(String, Binding)>)
    ensures
        result == entry_inserted(*entries, *name, definition),
    decreases entries,
{
    match entries {
        Chain::Empty => entries.clone().with((name.clone(), Binding::Unique(definition))),
        Chain::Link(link) => if link.item.0 == *name {
            let mut binding = link.item.1.clone();
            binding.merge(definition);
            link.rest.clone().with((link.item.0.clone(), binding))
        } else if name_less(name, &link.item.0) {
            insert_entry(&link.rest, name, definition).with(
                (link.item.0.clone(), link.item.1.clone()),
            )
        } else {
            entries.clone().with((name.clone(), Binding::Unique(definition)))
        },
    }
}

/// The names of a scope, each kind ordered by name.
pub struct ScopeMap {
    pub types: Chain<(String, Binding)>,
    pub values: Chain<(String, Binding)>,
    pub concepts: Chain<(String, Binding)>,
}

impl Clone for ScopeMap {
    fn clone(&self) -> (copy: Self)
        ensures
            copy == *self,
    {
        ScopeMap {
            types: self.types.clone(),
            values: self.values.clone(),
            concepts: self.concepts.clone(),
        }
    }
}

impl ScopeMap {
    pub open spec fn empty() -> ScopeMap {
        ScopeMap { types: Chain::Empty, values: Chain::Empty, concepts: Chain::Empty }
    }

    pub open spec fn of(self, namespace: Namespace) -> Chain<(String, Binding)> {
        match namespace {
            Namespace::Type => self.types,
            Namespace::Value => self.values,
            Namespace::Concept => self.concepts,
        }
    }

    pub open spec fn lookup(self, namespace: Namespace, name: Seq<char>) -> Option<Binding> {
        entry_of(self.of(namespace), name)
    }

    pub open spec fn inserted(
        self,
        namespace: Namespace,
        name: String,
        definition: DefId,
    ) -> ScopeMap {
        let entries = entry_inserted(self.of(namespace), name, definition);
        match namespace {
            Namespace::Type => ScopeMap { types: entries, ..self },
            Namespace::Value => ScopeMap { values: entries, ..self },
            Namespace::Concept => ScopeMap { concepts: entries, ..self },
        }
    }

    fn new() -> (scope: Self)
        ensures
            scope == ScopeMap::empty(),
    {
        ScopeMap { types: Chain::new(), values: Chain::new(), concepts: Chain::new() }
    }

    fn namespace(&self, namespace: Namespace) -> (entries: &Chain<(String, Binding)>)
        ensures
            *entries == self.of(namespace),
    {
        match namespace {
            Namespace::Type => &self.types,
            Namespace::Value => &self.values,
            Namespace::Concept => &self.concepts,
        }
    }

    fn resolve(&self, namespace: Namespace, name: &String) -> (binding: Option<&Binding>)
        ensures
            match binding {
                Some(found) => self.lookup(namespace, name@) == Some(*found),
                None => self.lookup(namespace, name@) is None,
            },
    {
        find_entry(self.namespace(namespace), name)
    }

    fn insert(&mut self, namespace: Namespace, name: &String, definition: DefId)
        ensures
            *final(self) == old(self).inserted(namespace, *name, definition),
    {
        let entries = insert_entry(self.namespace(namespace), name, definition);
        match namespace {
            Namespace::Type => {
                self.types = entries;
            },
            Namespace::Value => {
                self.values = entries;
            },
            Namespace::Concept => {
                self.concepts = entries;
            },
        }
    }
}

/// The names of a module.
pub struct DefMap {
    /// What the module declares. The tests of a module declare their own
    /// names, which hide those of the module.
    pub local: ScopeMap,
    /// What the files of the module see, where it is more than that.
    pub files: Table<ScopeMap>,
    /// What the module declares whose tests this one holds.
    pub production_fallback: Option<ScopeMap>,
}

impl Clone for DefMap {
    fn clone(&self) -> (copy: Self)
        ensures
            copy == *self,
    {
        DefMap {
            local: self.local.clone(),
            files: self.files.clone(),
            production_fallback: match &self.production_fallback {
                Some(scope) => Some(scope.clone()),
                None => None,
            },
        }
    }
}

/// The entries of `list` whose names are not among those of `primary`,
/// behind the entries of `primary`.
pub open spec fn entries_behind(
    primary: Chain<(String, Binding)>,
    list: Chain<(String, Binding)>,
) -> Chain<(String, Binding)>
    decreases list,
{
    match list {
        Chain::Empty => primary,
        Chain::Link(link) => {
            let before = entries_behind(primary, link.rest);
            if entry_of(primary, link.item.0@) is None {
                before.pushed(link.item)
            } else {
                before
            }
        },
    }
}

fn put_behind(primary: &Chain<(String, Binding)>, list: &Chain<(String, Binding)>) -> (result:
    Chain<(String, Binding)>)
    ensures
        result == entries_behind(*primary, *list),
    decreases list,
{
    match list {
        Chain::Empty => primary.clone(),
        Chain::Link(link) => {
            let before = put_behind(primary, &link.rest);
            if find_entry(primary, &link.item.0).is_none() {
                before.with((link.item.0.clone(), link.item.1.clone()))
            } else {
                before
            }
        },
    }
}

impl DefMap {
    /// What a file sees, but for the names of the module under test.
    pub open spec fn scope_of(self, file: u32) -> ScopeMap {
        match self.files.lookup(file) {
            Some(scope) => scope,
            None => self.local,
        }
    }

    fn file_scope(&self, file: u32) -> (scope: &ScopeMap)
        ensures
            *scope == self.scope_of(file),
    {
        match self.files.get(file) {
            Some(scope) => scope,
            None => &self.local,
        }
    }

    pub open spec fn fallback(self, namespace: Namespace, name: Seq<char>) -> Option<Binding> {
        match self.production_fallback {
            Some(scope) => scope.lookup(namespace, name),
            None => None,
        }
    }

    fn find_fallback(&self, namespace: Namespace, name: &String) -> (binding: Option<&Binding>)
        ensures
            match binding {
                Some(found) => self.fallback(namespace, name@) == Some(*found),
                None => self.fallback(namespace, name@) is None,
            },
    {
        match &self.production_fallback {
            Some(scope) => scope.resolve(namespace, name),
            None => None,
        }
    }

    /// What a name stands for in a file.
    pub open spec fn seen(self, namespace: Namespace, name: Seq<char>, file: u32) -> Option<
        Binding,
    > {
        match self.scope_of(file).lookup(namespace, name) {
            Some(binding) => Some(binding),
            None => self.fallback(namespace, name),
        }
    }

    /// What a name stands for in a file. The declarations of the module are
    /// shared by its files; what a file imports is its own.
    pub fn resolve(&self, namespace: Namespace, name: &String, file: u32) -> (binding: Option<
        &Binding,
    >)
        ensures
            match binding {
                Some(found) => self.seen(namespace, name@, file) == Some(*found),
                None => self.seen(namespace, name@, file) is None,
            },
    {
        match self.file_scope(file).resolve(namespace, name) {
            Some(binding) => Some(binding),
            None => self.find_fallback(namespace, name),
        }
    }

    /// The definition that a single name stands for in a file.
    pub open spec fn resolution(
        self,
        namespace: Namespace,
        name: Seq<char>,
        file: u32,
    ) -> Resolved {
        match self.seen(namespace, name, file) {
            Some(Binding::Unique(definition)) => Resolved::Found(definition),
            Some(Binding::Duplicate(_)) => Resolved::Duplicate,
            None => Resolved::Missing,
        }
    }

    /// The definition that a single name stands for in a file, as a path
    /// carries it.
    pub fn look_up(&self, namespace: Namespace, name: &String, file: u32) -> (resolved: Resolved)
        ensures
            resolved == self.resolution(namespace, name@, file),
    {
        match self.resolve(namespace, name, file) {
            Some(Binding::Unique(definition)) => Resolved::Found(*definition),
            Some(Binding::Duplicate(_)) => Resolved::Duplicate,
            None => Resolved::Missing,
        }
    }

    /// The names that a file sees, each once.
    pub open spec fn all_entries(
        self,
        namespace: Namespace,
        file: u32,
    ) -> Chain<(String, Binding)> {
        let primary = self.scope_of(file).of(namespace);
        match self.production_fallback {
            Some(scope) => entries_behind(primary, scope.of(namespace)),
            None => primary,
        }
    }

    pub fn entries(&self, namespace: Namespace, file: u32) -> (entries: Chain<(String, Binding)>)
        ensures
            entries == self.all_entries(namespace, file),
    {
        let primary = self.file_scope(file).namespace(namespace);
        match &self.production_fallback {
            Some(scope) => put_behind(primary, scope.namespace(namespace)),
            None => primary.clone(),
        }
    }

    /// What a name stands for in the module, without imports.
    pub open spec fn declared_as(self, namespace: Namespace, name: Seq<char>) -> Option<Binding> {
        match self.local.lookup(namespace, name) {
            Some(binding) => Some(binding),
            None => self.fallback(namespace, name),
        }
    }

    pub fn resolve_local(&self, namespace: Namespace, name: &String) -> (binding: Option<&Binding>)
        ensures
            match binding {
                Some(found) => self.declared_as(namespace, name@) == Some(*found),
                None => self.declared_as(namespace, name@) is None,
            },
    {
        match self.local.resolve(namespace, name) {
            Some(binding) => Some(binding),
            None => self.find_fallback(namespace, name),
        }
    }

    /// A file sees a name through an import.
    pub open spec fn imported(
        self,
        file: u32,
        namespace: Namespace,
        name: String,
        definition: DefId,
    ) -> DefMap {
        DefMap {
            files: self.files.inserted(
                file,
                self.scope_of(file).inserted(namespace, name, definition),
            ),
            ..self
        }
    }

    fn insert_import(
        &mut self,
        file: u32,
        namespace: Namespace,
        name: &String,
        definition: DefId,
    )
        ensures
            *final(self) == old(self).imported(file, namespace, *name, definition),
    {
        let mut scope = self.file_scope(file).clone();
        scope.insert(namespace, name, definition);
        self.files.insert(file, scope);
    }
}

/// The namespace that a declaration belongs to.
pub open spec fn namespace_of_kind(kind: DefinitionKind) -> Option<Namespace> {
    match kind {
        DefinitionKind::RefinedType { base: _, predicate: _ } => Some(Namespace::Type),
        DefinitionKind::Record { generic_params: _, fields: _, invariant_body: _ } => Some(
            Namespace::Type,
        ),
        DefinitionKind::Enum { generic_params: _, variants: _ } => Some(Namespace::Type),
        DefinitionKind::Constant { ty: _, value: _ } => Some(Namespace::Value),
        DefinitionKind::Function { signature: _, is_async: _ } => Some(Namespace::Value),
        DefinitionKind::Test { signature: _, is_async: _ } => Some(Namespace::Value),
        DefinitionKind::Concept { dyn_capable: _, associated_types: _, requirements: _ } => Some(
            Namespace::Concept,
        ),
        _ => None,
    }
}

fn namespace_of(kind: &DefinitionKind) -> (namespace: Option<Namespace>)
    ensures
        namespace == namespace_of_kind(*kind),
{
    match kind {
        DefinitionKind::RefinedType { base: _, predicate: _ } => Some(Namespace::Type),
        DefinitionKind::Record { generic_params: _, fields: _, invariant_body: _ } => Some(
            Namespace::Type,
        ),
        DefinitionKind::Enum { generic_params: _, variants: _ } => Some(Namespace::Type),
        DefinitionKind::Constant { ty: _, value: _ } => Some(Namespace::Value),
        DefinitionKind::Function { signature: _, is_async: _ } => Some(Namespace::Value),
        DefinitionKind::Test { signature: _, is_async: _ } => Some(Namespace::Value),
        DefinitionKind::Concept { dyn_capable: _, associated_types: _, requirements: _ } => Some(
            Namespace::Concept,
        ),
        _ => None,
    }
}

impl Program {
    /// The first definition stands before the second in the sources.
    pub open spec fn stands_before(self, left: DefId, right: DefId) -> bool {
        let a = self.span_of(left);
        let b = self.span_of(right);
        a.file < b.file || (a.file == b.file && (a.start < b.start || (a.start == b.start && left.0
            < right.0)))
    }

    fn is_before(&self, left: DefId, right: DefId) -> (before: bool)
        ensures
            before == self.stands_before(left, right),
    {
        let a = self.definition_span(left);
        let b = self.definition_span(right);
        a.file < b.file || (a.file == b.file && (a.start < b.start || (a.start == b.start && left.0
            < right.0)))
    }

    pub open spec fn source_placed(self, list: Chain<DefId>, definition: DefId) -> Chain<DefId>
        decreases list,
    {
        match list {
            Chain::Empty => list.pushed(definition),
            Chain::Link(link) => if self.stands_before(definition, link.item) {
                self.source_placed(link.rest, definition).pushed(link.item)
            } else {
                list.pushed(definition)
            },
        }
    }

    fn place_by_source(&self, list: &Chain<DefId>, definition: DefId) -> (placed: Chain<DefId>)
        ensures
            placed == self.source_placed(*list, definition),
        decreases list,
    {
        match list {
            Chain::Empty => list.clone().with(definition),
            Chain::Link(link) => if self.is_before(definition, link.item) {
                self.place_by_source(&link.rest, definition).with(link.item)
            } else {
                list.clone().with(definition)
            },
        }
    }

    /// The definitions in the order of the sources.
    pub open spec fn source_sorted(self, list: Chain<DefId>) -> Chain<DefId>
        decreases list,
    {
        match list {
            Chain::Empty => Chain::Empty,
            Chain::Link(link) => self.source_placed(self.source_sorted(link.rest), link.item),
        }
    }

    fn sort_by_source(&self, list: &Chain<DefId>) -> (sorted: Chain<DefId>)
        ensures
            sorted == self.source_sorted(*list),
        decreases list,
    {
        match list {
            Chain::Empty => Chain::new(),
            Chain::Link(link) => self.place_by_source(
                &self.sort_by_source(&link.rest),
                link.item,
            ),
        }
    }

    /// The names that definitions declare.
    pub open spec fn declared_names(self, definitions: Chain<DefId>) -> ScopeMap
        decreases definitions,
    {
        match definitions {
            Chain::Empty => ScopeMap::empty(),
            Chain::Link(link) => {
                let before = self.declared_names(link.rest);
                match at(self.definitions@, link.item.0) {
                    Some(found) => match (found.name, namespace_of_kind(found.kind)) {
                        (Some(name), Some(namespace)) => before.inserted(
                            namespace,
                            name,
                            link.item,
                        ),
                        _ => before,
                    },
                    None => before,
                }
            },
        }
    }

    fn collect_declared_names(&self, definitions: &Chain<DefId>) -> (scope: ScopeMap)
        ensures
            scope == self.declared_names(*definitions),
        decreases definitions,
    {
        match definitions {
            Chain::Empty => ScopeMap::new(),
            Chain::Link(link) => {
                let mut scope = self.collect_declared_names(&link.rest);
                match get(&self.definitions, link.item.0) {
                    Some(found) => match (&found.name, namespace_of(&found.kind)) {
                        (Some(name), Some(namespace)) => {
                            scope.insert(namespace, name, link.item);
                        },
                        _ => {},
                    },
                    None => {},
                }
                scope
            },
        }
    }

    /// The names that a module declares.
    pub open spec fn local_scope(self, module: ModuleId) -> ScopeMap {
        match at(self.modules@, module.0) {
            Some(found) => self.declared_names(self.source_sorted(found.items)),
            None => ScopeMap::empty(),
        }
    }

    fn collect_local_definitions(&self, module: ModuleId) -> (scope: ScopeMap)
        ensures
            scope == self.local_scope(module),
    {
        match get(&self.modules, module.0) {
            Some(found) => self.collect_declared_names(&self.sort_by_source(&found.items)),
            None => ScopeMap::new(),
        }
    }

    /// The names of a module before imports.
    pub open spec fn base_map(self, module: ModuleId) -> DefMap {
        DefMap {
            local: self.local_scope(module),
            files: Table::empty(),
            production_fallback: match at(self.modules@, module.0) {
                Some(found) => if found.test_companion {
                    Some(self.local_scope(found.production))
                } else {
                    None
                },
                None => None,
            },
        }
    }

    fn make_base_map(&self, module: ModuleId) -> (map: DefMap)
        ensures
            map == self.base_map(module),
    {
        DefMap {
            local: self.collect_local_definitions(module),
            files: Table::new(),
            production_fallback: match get(&self.modules, module.0) {
                Some(found) => if found.test_companion {
                    Some(self.collect_local_definitions(found.production))
                } else {
                    None
                },
                None => None,
            },
        }
    }

    pub open spec fn base_maps(self) -> Seq<DefMap> {
        Seq::new(self.modules@.len(), |i: int| self.base_map(ModuleId(i as u32)))
    }
}

/// The labels of the definitions of a list but its first.
pub open spec fn conflict_labels(program: &Program, list: Chain<DefId>) -> Chain<Label>
    decreases list,
{
    match list {
        Chain::Empty => Chain::Empty,
        Chain::Link(link) => if link.rest is Empty {
            Chain::Empty
        } else {
            conflict_labels(program, link.rest).pushed(
                Label { span: program.span_of(link.item), text: "conflicting definition" },
            )
        },
    }
}

fn make_conflict_labels(program: &Program, list: &Chain<DefId>) -> (labels: Chain<Label>)
    ensures
        labels == conflict_labels(program, *list),
    decreases list,
{
    match list {
        Chain::Empty => Chain::new(),
        Chain::Link(link) => if link.rest.is_empty() {
            Chain::new()
        } else {
            make_conflict_labels(program, &link.rest).with(
                Label {
                    span: program.definition_span(link.item),
                    text: "conflicting definition",
                },
            )
        },
    }
}

pub open spec fn first_definition(list: Chain<DefId>) -> DefId
    decreases list,
{
    match list {
        Chain::Empty => DefId(0),
        Chain::Link(link) => if link.rest is Empty {
            link.item
        } else {
            first_definition(link.rest)
        },
    }
}

fn find_first_definition(list: &Chain<DefId>) -> (definition: DefId)
    ensures
        definition == first_definition(*list),
    decreases list,
{
    match list {
        Chain::Empty => DefId(0),
        Chain::Link(link) => if link.rest.is_empty() {
            link.item
        } else {
            find_first_definition(&link.rest)
        },
    }
}

/// What is said of a name with several definitions in a module.
pub open spec fn duplicate_diagnostic(
    program: &Program,
    module: ModuleId,
    name: String,
    candidates: Chain<DefId>,
) -> Diagnostic {
    let ordered = program.source_sorted(candidates);
    Diagnostic {
        code: "DuplicateDeclaration",
        message: Message::NameAndModule(
            "`",
            name,
            "` is defined more than once in module `",
            module,
            "`",
        ),
        primary: program.span_of(first_definition(ordered)),
        labels: conflict_labels(program, ordered),
        note: None,
    }
}

fn make_duplicate_diagnostic(
    program: &Program,
    module: ModuleId,
    name: &String,
    candidates: &Chain<DefId>,
) -> (diagnostic: Diagnostic)
    ensures
        diagnostic == duplicate_diagnostic(program, module, *name, *candidates),
{
    let ordered = program.sort_by_source(candidates);
    Diagnostic {
        code: "DuplicateDeclaration",
        message: Message::NameAndModule(
            "`",
            name.clone(),
            "` is defined more than once in module `",
            module,
            "`",
        ),
        primary: program.definition_span(find_first_definition(&ordered)),
        labels: make_conflict_labels(program, &ordered),
        note: None,
    }
}

/// The names with several definitions, behind what was reported.
pub open spec fn duplicates_reported(
    program: &Program,
    module: ModuleId,
    entries: Chain<(String, Binding)>,
    reported: Chain<Diagnostic>,
) -> Chain<Diagnostic>
    decreases entries,
{
    match entries {
        Chain::Empty => reported,
        Chain::Link(link) => {
            let before = duplicates_reported(program, module, link.rest, reported);
            match link.item.1 {
                Binding::Unique(_) => before,
                Binding::Duplicate(candidates) => before.pushed(
                    duplicate_diagnostic(program, module, link.item.0, candidates),
                ),
            }
        },
    }
}

fn report_duplicates(
    program: &Program,
    module: ModuleId,
    entries: &Chain<(String, Binding)>,
    reported: Chain<Diagnostic>,
) -> (all: Chain<Diagnostic>)
    ensures
        all == duplicates_reported(program, module, *entries, reported),
    decreases entries,
{
    match entries {
        Chain::Empty => reported,
        Chain::Link(link) => {
            let before = report_duplicates(program, module, &link.rest, reported);
            match &link.item.1 {
                Binding::Unique(_) => before,
                Binding::Duplicate(candidates) => before.with(
                    make_duplicate_diagnostic(program, module, &link.item.0, candidates),
                ),
            }
        },
    }
}

/// The names with several definitions in the modules below `count`.
pub open spec fn local_duplicates(program: &Program, count: nat) -> Chain<Diagnostic>
    decreases count,
{
    if count == 0 {
        Chain::Empty
    } else {
        let module = ModuleId((count - 1) as u32);
        let scope = program.local_scope(module);
        duplicates_reported(
            program,
            module,
            scope.concepts,
            duplicates_reported(
                program,
                module,
                scope.values,
                duplicates_reported(
                    program,
                    module,
                    scope.types,
                    local_duplicates(program, (count - 1) as nat),
                ),
            ),
        )
    }
}

/// The names of all modules, and what was reported of them.
pub struct Scopes {
    pub maps: Seq<DefMap>,
    pub diagnostics: Chain<Diagnostic>,
}

/// The names of all modules, and what was reported of them.
pub struct DefMapBuild {
    pub maps: Vec<DefMap>,
    pub diagnostics: Chain<Diagnostic>,
}

impl View for DefMapBuild {
    type V = Scopes;

    open spec fn view(&self) -> Scopes {
        Scopes { maps: self.maps@, diagnostics: self.diagnostics }
    }
}

impl Program {
    /// The definition may be named in the module.
    pub open spec fn may_name(self, module: ModuleId, definition: DefId) -> bool {
        match at(self.definitions@, definition.0) {
            Some(found) => found.visibility == Visibility::Public || self.sees_private(
                module,
                found.module,
            ),
            None => false,
        }
    }

    fn check_may_name(&self, module: ModuleId, definition: DefId) -> (may: bool)
        ensures
            may == self.may_name(module, definition),
    {
        match get(&self.definitions, definition.0) {
            Some(found) => found.visibility == Visibility::Public || self.can_access_private(
                module,
                found.module,
            ),
            None => false,
        }
    }
}

/// The name that an import brings in.
pub open spec fn imported_name(import: Import) -> Option<String> {
    match import.path {
        Chain::Link(link) => Some(link.item.name),
        Chain::Empty => None,
    }
}

pub(crate) fn find_imported_name(path: &Chain<Segment>) -> (name: Option<&String>)
    ensures
        match name {
            Some(found) => match *path {
                Chain::Link(link) => link.item.name == *found,
                Chain::Empty => false,
            },
            None => *path is Empty,
        },
{
    match path {
        Chain::Link(link) => Some(&link.item.name),
        Chain::Empty => None,
    }
}

impl Scopes {
    /// The definitions of an imported name that may be named are seen in the
    /// file; the others are reported.
    pub open spec fn import_candidates(
        self,
        program: &Program,
        module: ModuleId,
        import: Import,
        name: String,
        namespace: Namespace,
        candidates: Chain<DefId>,
    ) -> Scopes
        decreases candidates,
    {
        match candidates {
            Chain::Empty => self,
            Chain::Link(link) => {
                let s = self.import_candidates(
                    program,
                    module,
                    import,
                    name,
                    namespace,
                    link.rest,
                );
                if program.may_name(module, link.item) {
                    if module.0 < s.maps.len() {
                        Scopes {
                            maps: s.maps.update(
                                module.0 as int,
                                s.maps[module.0 as int].imported(
                                    import.file,
                                    namespace,
                                    name,
                                    link.item,
                                ),
                            ),
                            ..s
                        }
                    } else {
                        s
                    }
                } else {
                    Scopes {
                        diagnostics: s.diagnostics.pushed(
                            plain(
                                "NameNotVisible",
                                Message::Name("`", name, "` is private"),
                                import.span,
                            ),
                        ),
                        ..s
                    }
                }
            },
        }
    }

    /// An imported name in one namespace.
    pub open spec fn import_name(
        self,
        program: &Program,
        module: ModuleId,
        import: Import,
        name: String,
        namespace: Namespace,
        target: DefMap,
    ) -> Scopes {
        match target.declared_as(namespace, name@) {
            Some(binding) => self.import_candidates(
                program,
                module,
                import,
                name,
                namespace,
                binding.all(),
            ),
            None => self,
        }
    }

    /// A name of a module is brought into a file.
    pub open spec fn import_from(
        self,
        program: &Program,
        module: ModuleId,
        import: Import,
        name: String,
        from: ModuleId,
    ) -> Scopes {
        match at(self.maps, from.0) {
            Some(target) => {
                let s = self.import_name(
                    program,
                    module,
                    import,
                    name,
                    Namespace::Type,
                    target,
                ).import_name(program, module, import, name, Namespace::Value, target).import_name(
                    program,
                    module,
                    import,
                    name,
                    Namespace::Concept,
                    target,
                );
                if target.declared_as(Namespace::Type, name@) is None && target.declared_as(
                    Namespace::Value,
                    name@,
                ) is None && target.declared_as(Namespace::Concept, name@) is None {
                    Scopes {
                        diagnostics: s.diagnostics.pushed(
                            plain(
                                "UnknownName",
                                Message::ModuleAndName(
                                    "`",
                                    from,
                                    "` does not define `",
                                    name,
                                    "`",
                                ),
                                import.span,
                            ),
                        ),
                        ..s
                    }
                } else {
                    s
                }
            },
            None => self,
        }
    }

    /// An import is resolved.
    #[verifier::opaque]
    pub open spec fn import(self, program: &Program, module: ModuleId, import: Import) -> Scopes {
        if is_provided(import) || !has_module_part(import.path) {
            self
        } else {
            match (import.target, imported_name(import)) {
                (ImportTarget::Found(from), Some(name)) => self.import_from(
                    program,
                    module,
                    import,
                    name,
                    from,
                ),
                _ => self,
            }
        }
    }

    /// The imports below `count` of a module are resolved.
    pub open spec fn import_all(
        self,
        program: &Program,
        module: ModuleId,
        imports: Seq<Import>,
        count: nat,
    ) -> Scopes
        decreases count,
    {
        if count == 0 {
            self
        } else {
            self.import_all(program, module, imports, (count - 1) as nat).import(
                program,
                module,
                imports[count - 1],
            )
        }
    }

    /// The imports of modules are resolved.
    pub open spec fn resolve_imports(self, program: &Program, modules: Chain<ModuleId>) -> Scopes
        decreases modules,
    {
        match modules {
            Chain::Empty => self,
            Chain::Link(link) => {
                let s = self.resolve_imports(program, link.rest);
                match at(program.modules@, link.item.0) {
                    Some(found) => s.import_all(
                        program,
                        link.item,
                        found.imports@,
                        found.imports@.len(),
                    ),
                    None => s,
                }
            },
        }
    }
}

impl Program {
    /// The names of all modules, and what there is to report of them.
    pub open spec fn scopes(self) -> Scopes {
        Scopes {
            maps: self.base_maps(),
            diagnostics: local_duplicates(&self, self.modules@.len()),
        }.resolve_imports(&self, self.ordered_modules())
    }
}

/// The definitions of the names that stand for only one.
pub open spec fn unique_definitions(entries: Chain<(String, Binding)>) -> Chain<DefId>
    decreases entries,
{
    match entries {
        Chain::Empty => Chain::Empty,
        Chain::Link(link) => {
            let before = unique_definitions(link.rest);
            match link.item.1.only() {
                Some(definition) => before.pushed(definition),
                None => before,
            }
        },
    }
}

fn collect_unique(entries: &Chain<(String, Binding)>) -> (definitions: Chain<DefId>)
    ensures
        definitions == unique_definitions(*entries),
    decreases entries,
{
    match entries {
        Chain::Empty => Chain::new(),
        Chain::Link(link) => {
            let before = collect_unique(&link.rest);
            match link.item.1.unique() {
                Some(definition) => before.with(definition),
                None => before,
            }
        },
    }
}

impl Scopes {
    /// The concepts that a file of a module sees, of each name that stands for
    /// only one, in the order of the names.
    pub open spec fn concepts_seen(self, module: ModuleId, file: u32) -> Chain<DefId> {
        match at(self.maps, module.0) {
            Some(names) => unique_definitions(names.all_entries(Namespace::Concept, file)),
            None => Chain::Empty,
        }
    }
}

impl DefMapBuild {
    /// The concepts that a file of a module sees.
    pub fn visible_concepts(&self, module: ModuleId, file: u32) -> (concepts: Chain<DefId>)
        ensures
            concepts == self@.concepts_seen(module, file),
    {
        match get(&self.maps, module.0) {
            Some(names) => collect_unique(&names.entries(Namespace::Concept, file)),
            None => Chain::new(),
        }
    }

    fn import_candidates(
        &mut self,
        program: &Program,
        module: ModuleId,
        import: &Import,
        name: &String,
        namespace: Namespace,
        candidates: &Chain<DefId>,
    )
        ensures
            final(self)@ == old(self)@.import_candidates(
                program,
                module,
                *import,
                *name,
                namespace,
                *candidates,
            ),
        decreases candidates,
    {
        match candidates {
            Chain::Empty => {},
            Chain::Link(link) => {
                self.import_candidates(program, module, import, name, namespace, &link.rest);
                if program.check_may_name(module, link.item) {
                    let position: usize = module.0 as usize;
                    if position < self.maps.len() {
                        let mut map = self.maps[position].clone();
                        map.insert_import(import.file, namespace, name, link.item);
                        self.maps.set(position, map);
                    }
                } else {
                    self.diagnostics.push(
                        Diagnostic::error(
                            "NameNotVisible",
                            Message::Name("`", name.clone(), "` is private"),
                            import.span,
                        ),
                    );
                }
            },
        }
    }

    fn import_name(
        &mut self,
        program: &Program,
        module: ModuleId,
        import: &Import,
        name: &String,
        namespace: Namespace,
        target: &DefMap,
    ) -> (found: bool)
        ensures
            final(self)@ == old(self)@.import_name(
                program,
                module,
                *import,
                *name,
                namespace,
                *target,
            ),
            found == (target.declared_as(namespace, name@) is Some),
    {
        match target.resolve_local(namespace, name) {
            Some(binding) => {
                let candidates = binding.candidates();
                self.import_candidates(program, module, import, name, namespace, &candidates);
                true
            },
            None => false,
        }
    }

    fn import_from(
        &mut self,
        program: &Program,
        module: ModuleId,
        import: &Import,
        name: &String,
        from: ModuleId,
    )
        ensures
            final(self)@ == old(self)@.import_from(program, module, *import, *name, from),
    {
        let target = match get(&self.maps, from.0) {
            Some(found) => Some(found.clone()),
            None => None,
        };
        match target {
            Some(target) => {
                let a = self.import_name(program, module, import, name, Namespace::Type, &target);
                let b = self.import_name(program, module, import, name, Namespace::Value, &target);
                let c = self.import_name(
                    program,
                    module,
                    import,
                    name,
                    Namespace::Concept,
                    &target,
                );
                if !a && !b && !c {
                    self.diagnostics.push(
                        Diagnostic::error(
                            "UnknownName",
                            Message::ModuleAndName(
                                "`",
                                from,
                                "` does not define `",
                                name.clone(),
                                "`",
                            ),
                            import.span,
                        ),
                    );
                }
            },
            None => {},
        }
    }

    fn import(&mut self, program: &Program, module: ModuleId, import: &Import)
        ensures
            final(self)@ == old(self)@.import(program, module, *import),
    {
        proof {
            reveal(Scopes::import);
        }
        if !check_provided(import) && check_module_part(&import.path) {
            match (&import.target, find_imported_name(&import.path)) {
                (ImportTarget::Found(from), Some(name)) => {
                    self.import_from(program, module, import, name, *from);
                },
                _ => {},
            }
        }
    }

    fn import_all(&mut self, program: &Program, module: ModuleId, imports: &Vec<Import>)
        ensures
            final(self)@ == old(self)@.import_all(program, module, imports@, imports@.len()),
    {
        let ghost begun = self@;
        let mut i: usize = 0;
        while i < imports.len()
            invariant
                i <= imports@.len(),
                self@ == begun.import_all(program, module, imports@, i as nat),
            decreases imports@.len() - i,
        {
            self.import(program, module, &imports[i]);
            i = i + 1;
        }
    }

    fn resolve_imports(&mut self, program: &Program, modules: &Chain<ModuleId>)
        ensures
            final(self)@ == old(self)@.resolve_imports(program, *modules),
        decreases modules,
    {
        match modules {
            Chain::Empty => {},
            Chain::Link(link) => {
                self.resolve_imports(program, &link.rest);
                match get(&program.modules, link.item.0) {
                    Some(found) => {
                        self.import_all(program, link.item, &found.imports);
                    },
                    None => {},
                }
            },
        }
    }

    /// Collects the names of all modules, and reports names that are defined
    /// twice and imports of names that do not exist or may not be named.
    pub fn build(program: &Program) -> (build: Self)
        requires
            program.modules_fit(),
        ensures
            build@ == program.scopes(),
    {
        let count: u32 = program.modules.len() as u32;
        let mut maps: Vec<DefMap> = Vec::new();
        let mut diagnostics: Chain<Diagnostic> = Chain::new();
        let mut i: u32 = 0;
        while i < count
            invariant
                i <= count,
                count == program.modules@.len(),
                maps@.len() == i,
                forall|x: int|
                    0 <= x < i ==> #[trigger] maps@[x] == program.base_map(ModuleId(x as u32)),
                diagnostics == local_duplicates(program, i as nat),
            decreases count - i,
        {
            let module = ModuleId(i);
            let map = program.make_base_map(module);
            diagnostics = report_duplicates(program, module, &map.local.types, diagnostics);
            diagnostics = report_duplicates(program, module, &map.local.values, diagnostics);
            diagnostics = report_duplicates(program, module, &map.local.concepts, diagnostics);
            maps.push(map);
            i = i + 1;
        }
        assert(maps@ =~= program.base_maps());
        let modules = program.order_modules();
        let mut build = DefMapBuild { maps, diagnostics };
        build.resolve_imports(program, &modules);
        build
    }

    /// The names of a module.
    pub fn map(&self, module: ModuleId) -> (map: Option<&DefMap>)
        ensures
            match map {
                Some(found) => at(self.maps@, module.0) == Some(*found),
                None => at(self.maps@, module.0) is None,
            },
    {
        get(&self.maps, module.0)
    }
}

/// The names of the entries grow from first to last.
pub open spec fn entries_ordered(entries: Chain<(String, Binding)>) -> bool
    decreases entries,
{
    match entries {
        Chain::Empty => true,
        Chain::Link(link) => entries_ordered(link.rest) && all_named_before(
            link.rest,
            link.item.0@,
        ),
    }
}

/// The names of the entries come before a name.
pub open spec fn all_named_before(entries: Chain<(String, Binding)>, name: Seq<char>) -> bool
    decreases entries,
{
    match entries {
        Chain::Empty => true,
        Chain::Link(link) => text_less(link.item.0@, name) && all_named_before(link.rest, name),
    }
}

proof fn lemma_named_before_less(
    entries: Chain<(String, Binding)>,
    name: Seq<char>,
    greater: Seq<char>,
)
    requires
        all_named_before(entries, name),
        text_less(name, greater),
    ensures
        all_named_before(entries, greater),
    decreases entries,
{
    if entries is Link {
        law_text_order(entries->0.item.0@, name, greater);
        lemma_named_before_less(entries.without_last(), name, greater);
    }
}

pub proof fn lemma_named_before_absent(entries: Chain<(String, Binding)>, name: Seq<char>)
    requires
        all_named_before(entries, name),
    ensures
        entry_of(entries, name) is None,
    decreases entries,
{
    if entries is Link {
        law_text_order(entries->0.item.0@, name, name);
        lemma_named_before_absent(entries.without_last(), name);
    }
}

proof fn lemma_inserted_before(
    entries: Chain<(String, Binding)>,
    name: String,
    definition: DefId,
    limit: Seq<char>,
)
    requires
        all_named_before(entries, limit),
        text_less(name@, limit),
    ensures
        all_named_before(entry_inserted(entries, name, definition), limit),
    decreases entries,
{
    if entries is Link {
        lemma_inserted_before(entries.without_last(), name, definition, limit);
    }
}

/// The entries stay in order when a definition is added; its name then stands
/// for one more definition, and no other name changes.
pub proof fn law_entry_inserted(
    entries: Chain<(String, Binding)>,
    name: String,
    definition: DefId,
    other: Seq<char>,
)
    requires
        entries_ordered(entries),
    ensures
        entries_ordered(entry_inserted(entries, name, definition)),
        entry_of(entry_inserted(entries, name, definition), other) == (if other == name@ {
            match entry_of(entries, other) {
                Some(binding) => Some(binding.merged(definition)),
                None => Some(Binding::Unique(definition)),
            }
        } else {
            entry_of(entries, other)
        }),
    decreases entries,
{
    if entries is Link {
        let rest = entries.without_last();
        let last = entries->0.item.0@;
        law_text_order(name@, last, last);
        law_text_order(last, name@, name@);
        if last == name@ {
            if other == name@ {
                lemma_named_before_absent(rest, other);
            }
        } else if text_less(name@, last) {
            law_entry_inserted(rest, name, definition, other);
            lemma_inserted_before(rest, name, definition, last);
        } else {
            lemma_named_before_less(rest, last, name@);
            assert(all_named_before(entries, name@));
            lemma_named_before_absent(entries, name@);
        }
    }
}

/// A name that stands for one definition and is given another stands for both
/// and no longer for one.
pub proof fn law_no_winner(binding: Binding, definition: DefId)
    requires
        binding.only() != Some(definition),
    ensures
        binding.merged(definition).only() is None,
{
}

/// What a file imports is seen in no other file.
pub proof fn law_imports_are_file_local(
    map: DefMap,
    file: u32,
    namespace: Namespace,
    name: String,
    definition: DefId,
    other: u32,
    sought: Namespace,
    text: Seq<char>,
)
    requires
        other != file,
    ensures
        map.imported(file, namespace, name, definition).seen(sought, text, other) == map.seen(
            sought,
            text,
            other,
        ),
        map.imported(file, namespace, name, definition).declared_as(sought, text)
            == map.declared_as(sought, text),
{
}

/// The names of the module under test are hidden by those of its tests.
pub proof fn law_tests_hide_names(map: DefMap, namespace: Namespace, name: Seq<char>, file: u32)
    ensures
        map.scope_of(file).lookup(namespace, name) is Some ==> map.seen(namespace, name, file)
            == map.scope_of(file).lookup(namespace, name),
        map.scope_of(file).lookup(namespace, name) is None ==> map.seen(namespace, name, file)
            == map.fallback(namespace, name),
{
}

} // verus!
