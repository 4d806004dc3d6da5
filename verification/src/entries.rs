//! What holds of the names of modules.

use vstd::prelude::*;

#[allow(unused_imports)]
use crate::chain::{lemma_len, Chain};
#[allow(unused_imports)]
use crate::def_map::{
    definition_placed, definitions_sorted, entries_behind, entries_ordered, entry_of,
    has_definition, imported_name, law_entry_inserted, lemma_named_before_absent,
    namespace_of_kind, Binding, DefMap, Namespace, ScopeMap, Scopes,
};
#[allow(unused_imports)]
use crate::hir::{at, Import, ImportTarget, Program};
#[allow(unused_imports)]
use crate::ids::{DefId, ModuleId};

verus! {

/// No definition stands in the list twice.
pub open spec fn without_repeats(list: Chain<DefId>) -> bool
    decreases list,
{
    match list {
        Chain::Empty => true,
        Chain::Link(link) => without_repeats(link.rest) && !has_definition(link.rest, link.item),
    }
}

impl Binding {
    /// No definition is named twice, and several are named where it is said so.
    pub open spec fn wf(self) -> bool {
        without_repeats(self.all()) && (self is Duplicate ==> self.all().spec_len() >= 2)
    }
}

proof fn lemma_placed(list: Chain<DefId>, definition: DefId, other: DefId)
    ensures
        has_definition(definition_placed(list, definition), other) <==> other == definition
            || has_definition(list, other),
        definition_placed(list, definition).spec_len() == list.spec_len() + 1,
    decreases list,
{
    if list is Link {
        lemma_placed(list.without_last(), definition, other);
    }
}

proof fn lemma_placed_once(list: Chain<DefId>, definition: DefId)
    requires
        without_repeats(list),
        !has_definition(list, definition),
    ensures
        without_repeats(definition_placed(list, definition)),
    decreases list,
{
    if list is Link {
        let rest = list.without_last();
        let last = list->0.item;
        lemma_placed_once(rest, definition);
        lemma_placed(rest, definition, last);
    }
}

proof fn lemma_sorted(list: Chain<DefId>, other: DefId)
    ensures
        has_definition(definitions_sorted(list), other) <==> has_definition(list, other),
        definitions_sorted(list).spec_len() == list.spec_len(),
    decreases list,
{
    if list is Link {
        let rest = list.without_last();
        lemma_sorted(rest, other);
        lemma_placed(definitions_sorted(rest), list->0.item, other);
    }
}

proof fn lemma_sorted_once(list: Chain<DefId>)
    requires
        without_repeats(list),
    ensures
        without_repeats(definitions_sorted(list)),
    decreases list,
{
    if list is Link {
        let rest = list.without_last();
        let last = list->0.item;
        lemma_sorted_once(rest);
        lemma_sorted(rest, last);
        lemma_placed_once(definitions_sorted(rest), last);
    }
}

/// A name that is given a definition stands for what it stood for and for that
/// definition, each once, and for nothing else. It stands for only one exactly
/// where it has one candidate. A definition that it stood for already changes
/// nothing, so that giving it a second time changes nothing either.
pub proof fn law_merge(binding: Binding, definition: DefId, other: DefId)
    requires
        binding.wf(),
    ensures
        binding.merged(definition).wf(),
        has_definition(binding.merged(definition).all(), other) <==> other == definition
            || has_definition(binding.all(), other),
        binding.merged(definition).only() is Some <==> binding.merged(
            definition,
        ).all().seq().len() == 1,
        has_definition(binding.all(), definition) ==> binding.merged(definition) == binding,
        binding.merged(definition).merged(definition) == binding.merged(definition),
{
    reveal_with_fuel(has_definition, 3);
    reveal_with_fuel(without_repeats, 3);
    let merged = binding.merged(definition);
    match binding {
        Binding::Unique(previous) => {
            let one = Chain::<DefId>::Empty.pushed(previous);
            assert(binding.all() == one);
            assert(Chain::<DefId>::Empty.spec_len() == 0);
            assert(one.spec_len() == 1);
            if previous != definition {
                let both = one.pushed(definition);
                assert(merged == Binding::Duplicate(both));
                assert(both.without_last() == one);
                assert(both.spec_len() == 2);
                assert(has_definition(both, definition));
            }
        },
        Binding::Duplicate(definitions) => {
            let more = definitions.pushed(definition);
            lemma_sorted(more, other);
            lemma_sorted(more, definition);
            if !has_definition(definitions, definition) {
                lemma_sorted_once(more);
            }
        },
    }
    lemma_len(merged.all());
}

/// The names of a scope grow from first to last.
pub open spec fn scope_ordered(scope: ScopeMap) -> bool {
    entries_ordered(scope.types) && entries_ordered(scope.values) && entries_ordered(
        scope.concepts,
    )
}

/// The names of all scopes of a module grow from first to last.
pub open spec fn map_ordered(map: DefMap) -> bool {
    &&& scope_ordered(map.local)
    &&& forall|file: u32| scope_ordered(#[trigger] map.scope_of(file))
    &&& match map.production_fallback {
        Some(scope) => scope_ordered(scope),
        None => true,
    }
}

spec fn maps_ordered(maps: Seq<DefMap>) -> bool {
    forall|i: int| 0 <= i < maps.len() ==> map_ordered(#[trigger] maps[i])
}

proof fn lemma_scope_inserted(
    scope: ScopeMap,
    namespace: Namespace,
    name: String,
    definition: DefId,
)
    requires
        scope_ordered(scope),
    ensures
        scope_ordered(scope.inserted(namespace, name, definition)),
{
    law_entry_inserted(scope.of(namespace), name, definition, name@);
}

proof fn lemma_declared_names(program: &Program, definitions: Chain<DefId>)
    ensures
        scope_ordered(program.declared_names(definitions)),
    decreases definitions,
{
    if definitions is Link {
        let rest = definitions.without_last();
        let last = definitions->0.item;
        lemma_declared_names(program, rest);
        if let Some(found) = at(program.definitions@, last.0) {
            if found.name is Some && namespace_of_kind(found.kind) is Some {
                lemma_scope_inserted(
                    program.declared_names(rest),
                    namespace_of_kind(found.kind)->0,
                    found.name->0,
                    last,
                );
            }
        }
    }
}

proof fn lemma_base_map(program: &Program, module: ModuleId)
    ensures
        map_ordered(program.base_map(module)),
{
    if let Some(found) = at(program.modules@, module.0) {
        lemma_declared_names(program, program.source_sorted(found.items));
        if let Some(production) = at(program.modules@, found.production.0) {
            lemma_declared_names(program, program.source_sorted(production.items));
        }
    }
}

proof fn lemma_imported(
    map: DefMap,
    file: u32,
    namespace: Namespace,
    name: String,
    definition: DefId,
)
    requires
        map_ordered(map),
    ensures
        map_ordered(map.imported(file, namespace, name, definition)),
{
    let after = map.imported(file, namespace, name, definition);
    lemma_scope_inserted(map.scope_of(file), namespace, name, definition);
    assert forall|other: u32| scope_ordered(#[trigger] after.scope_of(other)) by {
        if other != file {
            assert(after.scope_of(other) == map.scope_of(other));
        }
    }
}

proof fn lemma_import_candidates(
    s: Scopes,
    program: &Program,
    module: ModuleId,
    import: Import,
    name: String,
    namespace: Namespace,
    candidates: Chain<DefId>,
)
    requires
        maps_ordered(s.maps),
    ensures
        maps_ordered(
            s.import_candidates(program, module, import, name, namespace, candidates).maps,
        ),
        s.import_candidates(program, module, import, name, namespace, candidates).maps.len()
            == s.maps.len(),
    decreases candidates,
{
    if candidates is Link {
        let rest = candidates.without_last();
        let last = candidates->0.item;
        lemma_import_candidates(s, program, module, import, name, namespace, rest);
        let between = s.import_candidates(program, module, import, name, namespace, rest);
        if module.0 < between.maps.len() {
            lemma_imported(between.maps[module.0 as int], import.file, namespace, name, last);
        }
    }
}

proof fn lemma_import_name(
    s: Scopes,
    program: &Program,
    module: ModuleId,
    import: Import,
    name: String,
    namespace: Namespace,
    target: DefMap,
)
    requires
        maps_ordered(s.maps),
    ensures
        maps_ordered(s.import_name(program, module, import, name, namespace, target).maps),
        s.import_name(program, module, import, name, namespace, target).maps.len()
            == s.maps.len(),
{
    if let Some(binding) = target.declared_as(namespace, name@) {
        lemma_import_candidates(s, program, module, import, name, namespace, binding.all());
    }
}

proof fn lemma_import(s: Scopes, program: &Program, module: ModuleId, import: Import)
    requires
        maps_ordered(s.maps),
    ensures
        maps_ordered(s.import(program, module, import).maps),
        s.import(program, module, import).maps.len() == s.maps.len(),
{
    reveal(Scopes::import);
    if let ImportTarget::Found(from) = import.target {
        if let Some(name) = imported_name(import) {
            if let Some(target) = at(s.maps, from.0) {
                let a = s.import_name(program, module, import, name, Namespace::Type, target);
                let b = a.import_name(program, module, import, name, Namespace::Value, target);
                lemma_import_name(s, program, module, import, name, Namespace::Type, target);
                lemma_import_name(a, program, module, import, name, Namespace::Value, target);
                lemma_import_name(b, program, module, import, name, Namespace::Concept, target);
            }
        }
    }
}

proof fn lemma_import_all(
    s: Scopes,
    program: &Program,
    module: ModuleId,
    imports: Seq<Import>,
    count: nat,
)
    requires
        maps_ordered(s.maps),
    ensures
        maps_ordered(s.import_all(program, module, imports, count).maps),
        s.import_all(program, module, imports, count).maps.len() == s.maps.len(),
    decreases count,
{
    if count > 0 {
        let less = (count - 1) as nat;
        lemma_import_all(s, program, module, imports, less);
        lemma_import(
            s.import_all(program, module, imports, less),
            program,
            module,
            imports[count - 1],
        );
    }
}

proof fn lemma_resolve_imports(s: Scopes, program: &Program, modules: Chain<ModuleId>)
    requires
        maps_ordered(s.maps),
    ensures
        maps_ordered(s.resolve_imports(program, modules).maps),
        s.resolve_imports(program, modules).maps.len() == s.maps.len(),
    decreases modules,
{
    if modules is Link {
        let rest = modules.without_last();
        let last = modules->0.item;
        lemma_resolve_imports(s, program, rest);
        if let Some(found) = at(program.modules@, last.0) {
            lemma_import_all(
                s.resolve_imports(program, rest),
                program,
                last,
                found.imports@,
                found.imports@.len(),
            );
        }
    }
}

/// The scopes of every module of a program are in the order of their names, so
/// that no scope holds a name twice.
pub proof fn law_scopes_are_ordered(program: &Program, module: ModuleId)
    requires
        module.0 < program.modules@.len(),
    ensures
        program.scopes().maps.len() == program.modules@.len(),
        map_ordered(program.scopes().maps[module.0 as int]),
{
    let begun = Scopes {
        maps: program.base_maps(),
        diagnostics: crate::def_map::local_duplicates(program, program.modules@.len()),
    };
    assert forall|i: int| 0 <= i < begun.maps.len() implies map_ordered(
        #[trigger] begun.maps[i],
    ) by {
        lemma_base_map(program, ModuleId(i as u32));
    }
    lemma_resolve_imports(begun, program, program.ordered_modules());
}

/// No name has two entries.
spec fn each_once(entries: Chain<(String, Binding)>) -> bool
    decreases entries,
{
    match entries {
        Chain::Empty => true,
        Chain::Link(link) => each_once(link.rest) && entry_of(link.rest, link.item.0@) is None,
    }
}

proof fn lemma_ordered_once(entries: Chain<(String, Binding)>)
    requires
        entries_ordered(entries),
    ensures
        each_once(entries),
    decreases entries,
{
    if entries is Link {
        let rest = entries.without_last();
        lemma_ordered_once(rest);
        lemma_named_before_absent(rest, entries->0.item.0@);
    }
}

proof fn lemma_behind(
    primary: Chain<(String, Binding)>,
    list: Chain<(String, Binding)>,
    name: Seq<char>,
)
    requires
        each_once(primary),
        each_once(list),
    ensures
        each_once(entries_behind(primary, list)),
        entry_of(entries_behind(primary, list), name) == (match entry_of(primary, name) {
            Some(binding) => Some(binding),
            None => entry_of(list, name),
        }),
    decreases list,
{
    if list is Link {
        let rest = list.without_last();
        let last = list->0.item.0@;
        lemma_behind(primary, rest, name);
        lemma_behind(primary, rest, last);
    }
}

proof fn lemma_once(entries: Chain<(String, Binding)>, i: int, j: int)
    requires
        each_once(entries),
        0 <= i < j < entries.seq().len(),
    ensures
        entries.seq()[i].0@ != entries.seq()[j].0@,
    decreases entries,
{
    let rest = entries.without_last();
    if j < rest.seq().len() {
        lemma_once(rest, i, j);
    } else {
        lemma_entry_at(rest, i);
    }
}

proof fn lemma_entry_at(entries: Chain<(String, Binding)>, i: int)
    requires
        each_once(entries),
        0 <= i < entries.seq().len(),
    ensures
        entry_of(entries, entries.seq()[i].0@) == Some(entries.seq()[i].1),
    decreases entries,
{
    let rest = entries.without_last();
    if i < rest.seq().len() {
        lemma_entry_at(rest, i);
    }
}

proof fn lemma_entry_found(entries: Chain<(String, Binding)>, name: Seq<char>) -> (i: int)
    requires
        entry_of(entries, name) is Some,
    ensures
        0 <= i < entries.seq().len(),
        entries.seq()[i].0@ == name,
    decreases entries,
{
    if entries->0.item.0@ == name {
        entries.without_last().seq().len() as int
    } else {
        lemma_entry_found(entries.without_last(), name)
    }
}

/// The entries of a file are its names, each exactly once, with what the name
/// stands for there, and nothing else.
pub proof fn law_entries_are_what_is_seen(
    program: &Program,
    module: ModuleId,
    namespace: Namespace,
    file: u32,
)
    requires
        module.0 < program.modules@.len(),
    ensures
        ({
            let names = program.scopes().maps[module.0 as int];
            let entries = names.all_entries(namespace, file).seq();
            &&& forall|i: int, j: int|
                0 <= i < j < entries.len() ==> (#[trigger] entries[i]).0@ != (
                #[trigger] entries[j]).0@
            &&& forall|i: int|
                0 <= i < entries.len() ==> names.seen(
                    namespace,
                    (#[trigger] entries[i]).0@,
                    file,
                ) == Some(entries[i].1)
            &&& forall|name: Seq<char>|
                (#[trigger] names.seen(namespace, name, file)) is Some ==> exists|i: int|
                    0 <= i < entries.len() && (#[trigger] entries[i]).0@ == name
        }),
{
    let names = program.scopes().maps[module.0 as int];
    let entries = names.all_entries(namespace, file);
    law_scopes_are_ordered(program, module);
    let primary = names.scope_of(file).of(namespace);
    assert(scope_ordered(names.scope_of(file)));
    lemma_ordered_once(primary);
    assert(each_once(entries) && forall|name: Seq<char>| #[trigger]
        entry_of(entries, name) == names.seen(namespace, name, file)) by {
        if let Some(scope) = names.production_fallback {
            lemma_ordered_once(scope.of(namespace));
            lemma_behind(primary, scope.of(namespace), Seq::empty());
            assert forall|name: Seq<char>| #[trigger]
                entry_of(entries, name) == names.seen(namespace, name, file) by {
                lemma_behind(primary, scope.of(namespace), name);
            }
        }
    }
    assert forall|i: int, j: int| 0 <= i < j < entries.seq().len() implies (
    #[trigger] entries.seq()[i]).0@ != (#[trigger] entries.seq()[j]).0@ by {
        lemma_once(entries, i, j);
    }
    assert forall|i: int| 0 <= i < entries.seq().len() implies names.seen(
        namespace,
        (#[trigger] entries.seq()[i]).0@,
        file,
    ) == Some(entries.seq()[i].1) by {
        lemma_entry_at(entries, i);
    }
    assert forall|name: Seq<char>|
        (#[trigger] names.seen(namespace, name, file)) is Some implies exists|i: int|
        0 <= i < entries.seq().len() && (#[trigger] entries.seq()[i]).0@ == name by {
        assert(entry_of(entries, name) is Some);
        let i = lemma_entry_found(entries, name);
        assert(entries.seq()[i].0@ == name);
    }
}

} // verus!
