use loom_sema::chain::Chain;
use loom_sema::def_map::{Binding, DefMapBuild, Namespace};
use loom_sema::diagnostics::Diagnostic;
use loom_sema::hir::{
    CallableSource, Definition, DefinitionKind, Import, ImportTarget, Module, PackageId, Program, Segment,
    Visibility,
};
use loom_sema::ids::{DefId, ModuleId, Span};
use loom_sema::module_graph::ModuleGraphBuild;
use loom_sema::rendering::render_message;
use loom_sema::ty::TyInterner;

fn list<T>(items: Vec<T>) -> Chain<T> {
    Chain::from_vec(items)
}

fn items<T: Clone>(chain: &Chain<T>) -> Vec<T> {
    let mut result = Vec::new();
    let mut current = chain;
    while let Chain::Link(link) = current {
        result.push(link.item.clone());
        current = &link.rest;
    }
    result.reverse();
    result
}

fn codes(diagnostics: &Chain<Diagnostic>) -> Vec<&'static str> {
    items(diagnostics).iter().map(|found| found.code).collect()
}

fn text(program: &Program, diagnostic: &Diagnostic) -> String {
    render_message(program, &TyInterner::new(), &diagnostic.message)
        .into_iter()
        .collect()
}

fn span(file: u32, start: u32, end: u32) -> Span {
    Span { file, start, end }
}

fn empty() -> Program {
    Program {
        language: LANGUAGE_VERSION.to_owned(),
        definitions: vec![],
        modules: vec![],
        generic_params: vec![],
        params: vec![],
        type_refs: vec![],
        bodies: vec![],
    }
}

const LANGUAGE_VERSION: &str = "1";

fn package(name: &str) -> PackageId {
    let version = if name == "std" {
        LANGUAGE_VERSION
    } else {
        "0"
    };
    PackageId::with_language(
        name.to_owned(),
        version.to_owned(),
        LANGUAGE_VERSION.to_owned(),
    )
}

fn module(program: &mut Program, name: &str, owner: &str) -> ModuleId {
    let id = ModuleId(program.modules.len() as u32);
    program.modules.push(Module {
        name: name.to_owned(),
        package: package(owner),
        test_companion: false,
        private_access: list(vec![id]),
        production: id,
        imports: vec![],
        items: list(vec![]),
    });
    id
}

fn import(file: u32, module: &str, item: &str, target: ImportTarget) -> Import {
    let span = span(file, 0, 10);
    let mut segments = vec![];
    for name in module.split('.') {
        segments.push(Segment {
            name: name.to_owned(),
            span,
        });
    }
    segments.push(Segment {
        name: item.to_owned(),
        span,
    });
    Import {
        file,
        path: list(segments),
        target,
        primitive: false,
        span,
    }
}

fn primitive(file: u32, module: &str, item: &str) -> Import {
    let mut result = import(file, module, item, ImportTarget::Missing);
    result.primitive = true;
    result
}

fn function(
    program: &mut Program,
    module: ModuleId,
    name: &str,
    visibility: Visibility,
    place: Span,
) -> DefId {
    let id = DefId(program.definitions.len() as u32);
    program.definitions.push(Definition {
        name: Some(name.to_owned()),
        module,
        visibility,
        kind: DefinitionKind::Function {
            signature: CallableSource {
                receiver: None,
                generic_params: list(vec![]),
                params: list(vec![]),
                return_ty: None,
                requires: list(vec![]),
                ensures: list(vec![]),
            },
            is_async: false,
        },
        span: place,
    });
    let owner = &mut program.modules[module.0 as usize];
    owner.items.push(id);
    id
}

fn concept(program: &mut Program, module: ModuleId, name: &str) -> DefId {
    let id = function(program, module, name, Visibility::Public, span(0, 0, 1));
    program.definitions[id.0 as usize].kind = DefinitionKind::Concept {
        dyn_capable: false,
        associated_types: list(vec![]),
        requirements: list(vec![]),
    };
    id
}

fn unique(binding: Option<&Binding>) -> Option<DefId> {
    binding.and_then(|found| found.unique())
}

fn name(text: &str) -> String {
    text.to_owned()
}

#[test]
fn reports_import_cycle_once_in_canonical_order() {
    let mut program = empty();
    let a = module(&mut program, "a", "application");
    let b = module(&mut program, "b", "application");
    let to_b = import(1, "b", "Thing", ImportTarget::Found(b));
    let to_a = import(2, "a", "Thing", ImportTarget::Found(a));
    program.modules[0].imports.push(to_b);
    program.modules[1].imports.push(to_a);

    let build = ModuleGraphBuild::build(&program);
    let diagnostics = items(&build.diagnostics);
    assert_eq!(diagnostics.len(), 1);
    assert_eq!(diagnostics[0].code, "ModuleCycle");
    assert_eq!(
        text(&program, &diagnostics[0]),
        "module import cycle: a -> b -> a"
    );
    assert!(build.graph.dependency_order(&program).is_none());
}

fn process_program() -> (Program, ModuleId, ModuleId, ModuleId, ModuleId) {
    let mut program = empty();
    let process = module(&mut program, "std.process", "std");
    let wrong_owner = module(&mut program, "std.other", "std");
    let wrong_package = module(&mut program, "std.process", "hostile-std");
    let application = module(&mut program, "application", "application");
    for item in ["__argument_count", "__argument_at", "__environment"] {
        program.modules[0]
            .imports
            .push(primitive(1, "std.process", item));
    }
    program.modules[1].imports.push(import(
        2,
        "std.process",
        "__environment",
        ImportTarget::Found(process),
    ));
    program.modules[2].imports.push(import(
        3,
        "std.process",
        "__argument_count",
        ImportTarget::Found(wrong_package),
    ));
    program.modules[3].imports.push(import(
        4,
        "std.process",
        "__argument_count",
        ImportTarget::Found(process),
    ));
    program.modules[3].imports.push(import(
        4,
        "std.process",
        "arguments",
        ImportTarget::Found(process),
    ));
    (program, process, wrong_owner, wrong_package, application)
}

#[test]
fn process_primitives_are_skipped_only_for_the_exact_std_owner() {
    let (program, process, wrong_owner, wrong_package, application) = process_program();
    let build = ModuleGraphBuild::build(&program);
    assert!(build.graph.outgoing(process).is_empty());
    assert!(build.graph.imports(wrong_owner, process));
    assert!(build.graph.imports(wrong_package, wrong_package));
    assert_eq!(build.graph.outgoing(application).len(), 2);
    assert!(build.graph.imports(application, process));
    assert!(codes(&build.diagnostics).contains(&"ModuleCycle"));
}

#[test]
fn duplicate_definitions_never_choose_a_winner() {
    let mut program = empty();
    let owner = module(&mut program, "example", "application");
    for start in [20, 40] {
        function(
            &mut program,
            owner,
            "same",
            Visibility::Private,
            span(0, start, start + 4),
        );
    }

    let build = DefMapBuild::build(&program);
    let diagnostics = items(&build.diagnostics);
    assert_eq!(diagnostics.len(), 1);
    assert_eq!(diagnostics[0].code, "DuplicateDeclaration");
    assert_eq!(diagnostics[0].primary.start, 20);
    assert_eq!(diagnostics[0].labels.len(), 1);
    assert_eq!(
        text(&program, &diagnostics[0]),
        "`same` is defined more than once in module `example`"
    );
    let map = build.map(owner).unwrap();
    let binding = map.resolve(Namespace::Value, &name("same"), 0).unwrap();
    assert!(matches!(binding, Binding::Duplicate(candidates) if candidates.len() == 2));
    assert!(binding.unique().is_none());
}

#[test]
fn imports_are_file_local_while_directory_declarations_are_shared() {
    let mut program = empty();
    let application = module(&mut program, "application", "application");
    let dependency = module(&mut program, "dependency.tools", "dependency");
    let imported = function(
        &mut program,
        dependency,
        "answer",
        Visibility::Public,
        span(0, 0, 1),
    );
    let shared = function(
        &mut program,
        application,
        "shared",
        Visibility::Private,
        span(2, 0, 1),
    );
    program.modules[0].imports.push(import(
        1,
        "dep.tools",
        "answer",
        ImportTarget::Found(dependency),
    ));

    let build = DefMapBuild::build(&program);
    assert!(build.diagnostics.is_empty());
    let map = build.map(application).expect("application definition map");
    assert_eq!(
        unique(map.resolve(Namespace::Value, &name("answer"), 1)),
        Some(imported)
    );
    assert!(
        map.resolve(Namespace::Value, &name("answer"), 2).is_none(),
        "an import from the first file must not leak into the second file"
    );
    for file in [1, 2] {
        assert_eq!(
            unique(map.resolve(Namespace::Value, &name("shared"), file)),
            Some(shared),
            "directory-package declarations remain shared"
        );
    }
}

#[test]
fn process_primitive_import_authority_does_not_create_public_bindings() {
    let (mut program, process, _, _, application) = process_program();
    let arguments = function(
        &mut program,
        process,
        "arguments",
        Visibility::Public,
        span(0, 0, 1),
    );
    let build = DefMapBuild::build(&program);
    let unknown = codes(&build.diagnostics)
        .into_iter()
        .filter(|code| *code == "UnknownName")
        .count();
    assert_eq!(unknown, 3);
    assert!(build
        .map(process)
        .unwrap()
        .resolve(Namespace::Value, &name("__argument_count"), 1)
        .is_none());
    assert_eq!(
        unique(build.map(application).unwrap().resolve(
            Namespace::Value,
            &name("arguments"),
            4
        )),
        Some(arguments)
    );
}

#[test]
fn dependencies_come_first_and_ties_go_by_name() {
    let mut program = empty();
    let z = module(&mut program, "z", "application");
    let a = module(&mut program, "a", "application");
    let m = module(&mut program, "m", "application");
    program.modules[1]
        .imports
        .push(import(1, "z", "Thing", ImportTarget::Found(z)));
    let build = ModuleGraphBuild::build(&program);
    assert!(build.diagnostics.is_empty());
    let order = build.graph.dependency_order(&program).unwrap();
    assert_eq!(items(&order), vec![z, a, m]);
}

#[test]
fn edges_go_by_the_name_of_the_imported_module() {
    let mut program = empty();
    let from = module(&mut program, "from", "application");
    let z = module(&mut program, "z", "application");
    let b = module(&mut program, "b", "application");
    for (target, module) in [(z, "z"), (b, "b"), (z, "z")] {
        program.modules[0]
            .imports
            .push(import(1, module, "Thing", ImportTarget::Found(target)));
    }
    let build = ModuleGraphBuild::build(&program);
    let edges: Vec<(u32, usize)> = items(&build.graph.outgoing(from))
        .iter()
        .map(|edge| (edge.to.0, edge.import_index))
        .collect();
    assert_eq!(edges, vec![(2, 1), (1, 0), (1, 2)]);
}

#[test]
fn imports_that_lead_nowhere_are_reported() {
    let mut program = empty();
    module(&mut program, "a", "application");
    program.modules[0]
        .imports
        .push(import(1, "gone", "Thing", ImportTarget::Missing));
    program.modules[0].imports.push(import(
        1,
        "far.away",
        "Thing",
        ImportTarget::UndeclaredDependency("far@1".to_owned()),
    ));
    let mut short = import(1, "only", "x", ImportTarget::Missing);
    short.path = list(vec![Segment {
        name: "only".to_owned(),
        span: span(1, 0, 4),
    }]);
    program.modules[0].imports.push(short);
    program.modules[0]
        .imports
        .push(import(1, "std.time", "milliseconds", ImportTarget::Missing));
    let build = ModuleGraphBuild::build(&program);
    let texts: Vec<String> = items(&build.diagnostics)
        .iter()
        .map(|found| text(&program, found))
        .collect();
    assert_eq!(
        texts,
        vec![
            "module `gone` does not exist".to_owned(),
            "module `far.away` belongs to `far@1`, which is not a direct dependency".to_owned(),
            "an import must contain a module and a declaration name".to_owned(),
        ]
    );
    assert_eq!(
        codes(&build.diagnostics),
        vec!["UnknownName", "UndeclaredDependency", "UnexpectedToken"]
    );
}

#[test]
fn private_names_are_imported_only_where_they_may_be_named() {
    let mut program = empty();
    let user = module(&mut program, "user", "application");
    let tests = module(&mut program, "tests", "application");
    let owner = module(&mut program, "owner", "application");
    program.modules[1].private_access = list(vec![tests, owner]);
    let hidden = function(
        &mut program,
        owner,
        "hidden",
        Visibility::Private,
        span(3, 0, 1),
    );
    for index in [0, 1] {
        program.modules[index].imports.push(import(
            index as u32,
            "owner",
            "hidden",
            ImportTarget::Found(owner),
        ));
    }
    let build = DefMapBuild::build(&program);
    assert_eq!(codes(&build.diagnostics), vec!["NameNotVisible"]);
    assert_eq!(
        text(&program, build.diagnostics.last().unwrap()),
        "`hidden` is private"
    );
    assert!(build
        .map(user)
        .unwrap()
        .resolve(Namespace::Value, &name("hidden"), 0)
        .is_none());
    assert_eq!(
        unique(
            build
                .map(tests)
                .unwrap()
                .resolve(Namespace::Value, &name("hidden"), 1)
        ),
        Some(hidden)
    );
}

#[test]
fn tests_see_and_hide_the_names_of_their_module() {
    let mut program = empty();
    let production = module(&mut program, "shop", "application");
    let companion = module(&mut program, "shop.test", "application");
    program.modules[1].test_companion = true;
    program.modules[1].production = production;
    let price = function(
        &mut program,
        production,
        "price",
        Visibility::Private,
        span(1, 0, 1),
    );
    function(
        &mut program,
        production,
        "helper",
        Visibility::Private,
        span(1, 5, 6),
    );
    let helper = function(
        &mut program,
        companion,
        "helper",
        Visibility::Private,
        span(2, 0, 1),
    );
    let build = DefMapBuild::build(&program);
    assert!(build.diagnostics.is_empty());
    let map = build.map(companion).unwrap();
    assert_eq!(
        unique(map.resolve(Namespace::Value, &name("price"), 2)),
        Some(price)
    );
    assert_eq!(
        unique(map.resolve_local(Namespace::Value, &name("helper"))),
        Some(helper)
    );
    let names: Vec<String> = items(&map.entries(Namespace::Value, 2))
        .iter()
        .map(|entry| entry.0.clone())
        .collect();
    assert_eq!(names, vec!["helper".to_owned(), "price".to_owned()]);
}

#[test]
fn namespaces_do_not_clash() {
    let mut program = empty();
    let owner = module(&mut program, "a", "application");
    let value = function(
        &mut program,
        owner,
        "same",
        Visibility::Public,
        span(0, 0, 1),
    );
    let other = concept(&mut program, owner, "same");
    let build = DefMapBuild::build(&program);
    assert!(build.diagnostics.is_empty());
    let map = build.map(owner).unwrap();
    assert_eq!(
        unique(map.resolve(Namespace::Value, &name("same"), 0)),
        Some(value)
    );
    assert_eq!(
        unique(map.resolve(Namespace::Concept, &name("same"), 0)),
        Some(other)
    );
    assert!(map.resolve(Namespace::Type, &name("same"), 0).is_none());
    assert!(build.map(ModuleId(7)).is_none());
}

#[test]
fn a_name_with_several_definitions_keeps_each_once() {
    let mut program = empty();
    let owner = module(&mut program, "a", "application");
    let first = function(&mut program, owner, "same", Visibility::Public, span(0, 9, 10));
    let second = function(&mut program, owner, "same", Visibility::Public, span(0, 0, 1));
    let third = function(&mut program, owner, "same", Visibility::Public, span(0, 5, 6));
    let user = module(&mut program, "b", "application");
    for _ in 0..2 {
        program.modules[1]
            .imports
            .push(import(1, "a", "same", ImportTarget::Found(owner)));
    }
    let build = DefMapBuild::build(&program);
    for (names, file) in [(build.map(owner), 0), (build.map(user), 1)] {
        let binding = names
            .unwrap()
            .resolve(Namespace::Value, &name("same"), file)
            .unwrap();
        assert_eq!(binding.unique(), None);
        let mut candidates = items(&binding.candidates());
        candidates.sort_unstable();
        assert_eq!(candidates, [first, second, third]);
    }
}

#[test]
fn entries_are_the_names_that_resolve() {
    let mut program = empty();
    let production = module(&mut program, "shop", "application");
    let companion = module(&mut program, "shop.test", "application");
    program.modules[1].test_companion = true;
    program.modules[1].production = production;
    for (owner, text, file) in [
        (production, "price", 1),
        (production, "helper", 1),
        (companion, "helper", 2),
        (companion, "zebra", 2),
        (companion, "zebra", 2),
    ] {
        function(&mut program, owner, text, Visibility::Private, span(file, 0, 1));
    }
    let build = DefMapBuild::build(&program);
    let names = build.map(companion).unwrap();
    let entries = items(&names.entries(Namespace::Value, 2));
    let mut texts: Vec<String> = entries.iter().map(|entry| entry.0.clone()).collect();
    texts.sort();
    assert_eq!(texts, ["helper", "price", "zebra"]);
    for (text, binding) in &entries {
        let seen = names.resolve(Namespace::Value, text, 2).unwrap();
        assert_eq!(items(&seen.candidates()), items(&binding.candidates()));
    }
    assert!(names.resolve(Namespace::Value, &name("other"), 2).is_none());
}

#[test]
fn visible_concepts_are_those_of_unique_names_in_the_file() {
    let mut program = empty();
    let owner = module(&mut program, "a", "application");
    let user = module(&mut program, "b", "application");
    let shown = concept(&mut program, owner, "Shown");
    let known = concept(&mut program, user, "Known");
    concept(&mut program, user, "Twice");
    concept(&mut program, user, "Twice");
    program.modules[1]
        .imports
        .push(import(4, "a", "Shown", ImportTarget::Found(owner)));
    let build = DefMapBuild::build(&program);
    assert_eq!(items(&build.visible_concepts(user, 4)), [known, shown]);
    assert_eq!(items(&build.visible_concepts(user, 5)), [known]);
    assert_eq!(items(&build.visible_concepts(owner, 4)), [shown]);
    assert!(items(&build.visible_concepts(ModuleId(9), 4)).is_empty());
}

#[test]
fn the_standard_library_is_that_of_the_language_version() {
    let language = LANGUAGE_VERSION.to_owned();
    assert!(package("std").is_compiler_std(&language));
    assert!(!package("std").is_compiler_std(&name("0.5")));
    assert!(!package("hostile-std").is_compiler_std(&language));
    for (version, spoken) in [("0.5", LANGUAGE_VERSION), (LANGUAGE_VERSION, "0.5")] {
        let other = PackageId::with_language(name("std"), name(version), name(spoken));
        assert!(!other.is_compiler_std(&language));
    }
}

#[test]
fn merging_a_definition_twice_is_merging_it_once() {
    let mut binding = Binding::Unique(DefId(7));
    binding.merge(DefId(7));
    assert_eq!(binding.unique(), Some(DefId(7)));
    binding.merge(DefId(3));
    assert_eq!(items(&binding.candidates()), [DefId(7), DefId(3)]);
    for _ in 0..2 {
        binding.merge(DefId(5));
        assert_eq!(items(&binding.candidates()), [DefId(3), DefId(5), DefId(7)]);
        assert_eq!(binding.unique(), None);
    }
}
