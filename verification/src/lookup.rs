//! What names in a body stand for, and the expressions that are names.

use vstd::prelude::*;

use crate::chain::Chain;
#[allow(unused_imports)]
use crate::coerce::local_name;
use crate::def_map::find_imported_name;
#[allow(unused_imports)]
use crate::def_map::imported_name;
#[allow(unused_imports)]
use crate::diagnostics::{adds_to, lemma_adds_nothing, lemma_adds_one, lemma_adds_through};
use crate::diagnostics::Message;
#[allow(unused_imports)]
use crate::flow::FlowState;
#[allow(unused_imports)]
use crate::growth::{later, lemma_later_itself, lemma_later_through};
use crate::hir::{
    get, text_is, CompilerStdPrimitive, Definition, DefinitionKind, Expr, ExprKind, Import,
    Literal, Path, Program, ReceiverKind, Resolved, Segment,
};
#[allow(unused_imports)]
use crate::hir::{at, named};
use crate::ids::{DefId, GenericParamId, LocalId, ModuleId, ParamId, TyId};
use crate::literals::parse_int;
#[allow(unused_imports)]
use crate::literals::literal_int;
use crate::resolve::find_generic;
#[allow(unused_imports)]
use crate::resolve::generic_named;
use crate::semantics::{
    BuiltinValue, CanonicalStdItems, Place, PlaceRoot, Resolution, Signature, TaskIntrinsic,
};
#[allow(unused_imports)]
use crate::state::World;
use crate::state::{BodyChecker, Context, ContractMode, PlaceAccess, ValuePathLookup};
use crate::table::{contains_id, insert_id, remove_id};
#[allow(unused_imports)]
use crate::table::{has_id, id_inserted, id_removed};
use crate::ty::{BuiltinType, Mutability, TyData, TyInterner};
#[allow(unused_imports)]
use crate::ty::{builtin_ty, error_ty, interned, interned_ty, ty_data, types_wf};

verus! {

broadcast use {
    lemma_adds_nothing,
    lemma_adds_one,
    lemma_adds_through,
    lemma_later_itself,
    lemma_later_through,
};

pub open spec fn local_in_scope(cx: &Context, scope: Chain<LocalId>, name: Seq<char>) -> Option<
    LocalId,
>
    decreases scope,
{
    match scope {
        Chain::Empty => None,
        Chain::Link(link) => if local_name(cx, link.item) == Some(name) {
            Some(link.item)
        } else {
            local_in_scope(cx, link.rest, name)
        },
    }
}

/// The local that a name stands for: the one in the innermost scope.
pub open spec fn visible_local(
    cx: &Context,
    scopes: Chain<Chain<LocalId>>,
    name: Seq<char>,
) -> Option<LocalId>
    decreases scopes,
{
    match scopes {
        Chain::Empty => None,
        Chain::Link(link) => match local_in_scope(cx, link.item, name) {
            Some(local) => Some(local),
            None => visible_local(cx, link.rest, name),
        },
    }
}

pub(crate) fn find_in_scope(
    cx: &Context,
    scope: &Chain<LocalId>,
    name: &String,
) -> (local: Option<LocalId>)
    ensures
        local == local_in_scope(cx, *scope, name@),
    decreases scope,
{
    match scope {
        Chain::Empty => None,
        Chain::Link(link) => {
            let same = match cx.local(link.item) {
                Some(found) => found.name == *name,
                None => false,
            };
            if same {
                Some(link.item)
            } else {
                find_in_scope(cx, &link.rest, name)
            }
        },
    }
}

fn find_visible_local(
    cx: &Context,
    scopes: &Chain<Chain<LocalId>>,
    name: &String,
) -> (local: Option<
    LocalId,
>)
    ensures
        local == visible_local(cx, *scopes, name@),
    decreases scopes,
{
    match scopes {
        Chain::Empty => None,
        Chain::Link(link) => match find_in_scope(cx, &link.item, name) {
            Some(local) => Some(local),
            None => find_visible_local(cx, &link.rest, name),
        },
    }
}

/// The parameter of the body with a name.
pub open spec fn param_named(
    cx: &Context,
    params: Chain<(ParamId, TyId)>,
    name: Seq<char>,
) -> Option<(ParamId, TyId)>
    decreases params,
{
    match params {
        Chain::Empty => None,
        Chain::Link(link) => match at(cx.program.params@, link.item.0.0) {
            Some(found) => if found.name@ == name {
                Some(link.item)
            } else {
                param_named(cx, link.rest, name)
            },
            None => param_named(cx, link.rest, name),
        },
    }
}

fn find_param(cx: &Context, params: &Chain<(ParamId, TyId)>, name: &String) -> (param: Option<
    (ParamId, TyId),
>)
    ensures
        param == param_named(cx, *params, name@),
    decreases params,
{
    match params {
        Chain::Empty => None,
        Chain::Link(link) => match get(&cx.program.params, link.item.0.0) {
            Some(found) => if found.name == *name {
                Some(link.item)
            } else {
                find_param(cx, &link.rest, name)
            },
            None => find_param(cx, &link.rest, name),
        },
    }
}

pub open spec fn found(resolved: Resolved) -> Option<DefId> {
    match resolved {
        Resolved::Found(definition) => Some(definition),
        _ => None,
    }
}

pub(crate) fn find(resolved: &Resolved) -> (definition: Option<DefId>)
    ensures
        definition == found(*resolved),
{
    match resolved {
        Resolved::Found(definition) => Some(*definition),
        _ => None,
    }
}

/// The standard types that every module can name.
pub open spec fn prelude_type(items: CanonicalStdItems, path: Path) -> Option<DefId> {
    match path.single() {
        None => None,
        Some(segment) => if segment.name@ == "File"@ {
            items.file
        } else if segment.name@ == "IoError"@ {
            items.io_error
        } else if segment.name@ == "IoErrorKind"@ {
            items.io_error_kind
        } else if segment.name@ == "Json"@ {
            items.json
        } else if segment.name@ == "JsonError"@ {
            items.json_error
        } else if segment.name@ == "Socket"@ {
            items.socket
        } else {
            None
        },
    }
}

pub(crate) fn canonical_prelude_type(
    items: CanonicalStdItems,
    path: &Path,
) -> (definition: Option<DefId>)
    ensures
        definition == prelude_type(items, *path),
{
    match path.only_segment() {
        None => None,
        Some(segment) => if text_is(&segment.name, "File") {
            items.file
        } else if text_is(&segment.name, "IoError") {
            items.io_error
        } else if text_is(&segment.name, "IoErrorKind") {
            items.io_error_kind
        } else if text_is(&segment.name, "Json") {
            items.json
        } else if text_is(&segment.name, "JsonError") {
            items.json_error
        } else if text_is(&segment.name, "Socket") {
            items.socket
        } else {
            None
        },
    }
}

/// The path is the name of a generic parameter that the body may use.
pub open spec fn names_generic_param(cx: &Context, path: Path) -> bool {
    match path.single() {
        Some(segment) => generic_named(
            cx.program,
            cx.environment.names.generic_params,
            segment.name@,
        ) is Some,
        None => false,
    }
}

fn check_generic_param(cx: &Context, path: &Path) -> (result: bool)
    ensures
        result == names_generic_param(cx, *path),
{
    match path.only_segment() {
        Some(segment) => find_generic(
            cx.program,
            &cx.environment.names.generic_params,
            &segment.name,
        ).is_some(),
        None => false,
    }
}

/// An import of the file that a segment stands in brings its name into the
/// module.
pub open spec fn names_import(program: &Program, module: ModuleId, segment: Segment) -> bool {
    match at(program.modules@, module.0) {
        Some(found) => exists|i: int|
            0 <= i < found.imports@.len() && #[trigger] brings_in(found.imports@[i], segment),
        None => false,
    }
}

/// The import stands in the file of the segment and brings in its name.
pub open spec fn brings_in(import: Import, segment: Segment) -> bool {
    import.file == segment.span.file && match imported_name(import) {
        Some(name) => name@ == segment.name@,
        None => false,
    }
}

fn check_import(program: &Program, module: ModuleId, segment: &Segment) -> (result: bool)
    ensures
        result == names_import(program, module, *segment),
{
    match get(&program.modules, module.0) {
        Some(found) => {
            let mut i: usize = 0;
            while i < found.imports.len()
                invariant
                    i <= found.imports@.len(),
                    at(program.modules@, module.0) == Some(*found),
                    forall|j: int|
                        0 <= j < i ==> !(#[trigger] brings_in(found.imports@[j], *segment)),
                decreases found.imports@.len() - i,
            {
                let import = &found.imports[i];
                let same = import.file == segment.span.file && match find_imported_name(
                    &import.path,
                ) {
                    Some(name) => *name == segment.name,
                    None => false,
                };
                if same {
                    assert(brings_in(found.imports@[i as int], *segment));
                    return true;
                }
                i = i + 1;
            }
            false
        },
        None => false,
    }
}

/// The type that a path names in a body. The standard types come before what
/// the module declares; a generic parameter is no definition.
pub open spec fn type_named(cx: &Context, path: Path) -> Option<DefId> {
    match prelude_type(cx.canonical_std_items, path) {
        Some(definition) => Some(definition),
        None => if names_generic_param(cx, path) {
            None
        } else {
            found(path.ty)
        },
    }
}

pub(crate) fn find_type(cx: &Context, path: &Path) -> (definition: Option<DefId>)
    ensures
        definition == type_named(cx, *path),
{
    match canonical_prelude_type(cx.canonical_std_items, path) {
        Some(definition) => Some(definition),
        None => if check_generic_param(cx, path) {
            None
        } else {
            find(&path.ty)
        },
    }
}

/// The record that a literal names.
pub open spec fn record_named(cx: &Context, path: Path) -> Option<DefId> {
    match prelude_type(cx.canonical_std_items, path) {
        Some(definition) => Some(definition),
        None => found(path.ty),
    }
}

pub(crate) fn find_record(cx: &Context, path: &Path) -> (definition: Option<DefId>)
    ensures
        definition == record_named(cx, *path),
{
    match canonical_prelude_type(cx.canonical_std_items, path) {
        Some(definition) => Some(definition),
        None => find(&path.ty),
    }
}

/// The variant that a type and a name denote, with the enum.
pub open spec fn qualified_variant(cx: &Context, path: Path, name: Seq<char>) -> Option<
    (DefId, DefId),
> {
    match type_named(cx, path) {
        Some(owner) => match cx.program.kind_of(owner) {
            Some(DefinitionKind::Enum { generic_params: _, variants }) =>
                match cx.program.member_named(variants, name) {
                    Some(variant) => Some((variant, owner)),
                    None => None,
                },
            _ => None,
        },
        None => None,
    }
}

pub(crate) fn resolve_qualified_variant(
    cx: &Context,
    path: &Path,
    name: &String,
) -> (result: Option<
    (DefId, DefId),
>)
    ensures
        result == qualified_variant(cx, *path, name@),
{
    match find_type(cx, path) {
        Some(owner) => match cx.program.kind(owner) {
            Some(DefinitionKind::Enum { generic_params: _, variants }) =>
                match cx.program.find_member(variants, name) {
                    Some(variant) => Some((variant, owner)),
                    None => None,
                },
            _ => None,
        },
        None => None,
    }
}

/// The parameters as types.
pub open spec fn param_types(types: Seq<TyData>, parameters: Chain<GenericParamId>) -> (
    Seq<TyData>,
    Chain<TyId>,
)
    decreases parameters,
{
    match parameters {
        Chain::Empty => (types, Chain::Empty),
        Chain::Link(link) => {
            let (between, rest) = param_types(types, link.rest);
            let data = TyData::Param(link.item);
            (interned(between, data), rest.pushed(interned_ty(between, data)))
        },
    }
}

/// A nominal type applied to its own parameters.
pub open spec fn nominal_self(program: &Program, types: Seq<TyData>, definition: DefId) -> (
    Seq<TyData>,
    TyId,
) {
    let (between, arguments) = param_types(types, program.type_params_of(definition));
    let data = TyData::Nominal { definition, arguments };
    (interned(between, data), interned_ty(between, data))
}

fn make_param_types(types: &mut TyInterner, parameters: &Chain<GenericParamId>) -> (result: Chain<
    TyId,
>)
    requires
        types_wf(old(types)@),
    ensures
        types_wf(final(types)@),
        later(old(types)@, final(types)@),
        (final(types)@, result) == param_types(old(types)@, *parameters),
    decreases parameters,
{
    match parameters {
        Chain::Empty => Chain::new(),
        Chain::Link(link) => {
            let rest = make_param_types(types, &link.rest);
            let ty = types.intern(TyData::Param(link.item));
            rest.with(ty)
        },
    }
}

pub(crate) fn nominal_self_type(
    program: &Program,
    types: &mut TyInterner,
    definition: DefId,
) -> (ty:
    TyId)
    requires
        types_wf(old(types)@),
    ensures
        types_wf(final(types)@),
        later(old(types)@, final(types)@),
        (final(types)@, ty) == nominal_self(program, old(types)@, definition),
{
    let parameters = program.type_generic_params(definition);
    let arguments = make_param_types(types, &parameters);
    types.intern(TyData::Nominal { definition, arguments })
}

/// The function of the task namespace with a name.
pub open spec fn task_intrinsic(name: Seq<char>) -> Option<TaskIntrinsic> {
    if name == "sleep"@ {
        Some(TaskIntrinsic::Sleep)
    } else if name == "all"@ {
        Some(TaskIntrinsic::All)
    } else if name == "settled"@ {
        Some(TaskIntrinsic::Settled)
    } else if name == "any"@ {
        Some(TaskIntrinsic::Any)
    } else if name == "race"@ {
        Some(TaskIntrinsic::Race)
    } else {
        None
    }
}

pub(crate) fn find_task_intrinsic(name: &String) -> (intrinsic: Option<TaskIntrinsic>)
    ensures
        intrinsic == task_intrinsic(name@),
{
    if text_is(name, "sleep") {
        Some(TaskIntrinsic::Sleep)
    } else if text_is(name, "all") {
        Some(TaskIntrinsic::All)
    } else if text_is(name, "settled") {
        Some(TaskIntrinsic::Settled)
    } else if text_is(name, "any") {
        Some(TaskIntrinsic::Any)
    } else if text_is(name, "race") {
        Some(TaskIntrinsic::Race)
    } else {
        None
    }
}

/// A function of a module of the standard library, with a name.
pub open spec fn is_std_function(
    cx: &Context,
    item: Definition,
    module: Seq<char>,
    name: Seq<char>,
) -> bool {
    match at(cx.program.modules@, item.module.0) {
        Some(found) => found.package.is_std_of(cx.program.language@) && found.name@ == module && named(item.name, name)
            && item.kind is Function,
        None => false,
    }
}

fn check_std_function(cx: &Context, item: &Definition, module: &str, name: &str) -> (result: bool)
    ensures
        result == is_std_function(cx, *item, module@, name@),
{
    match get(&cx.program.modules, item.module.0) {
        Some(found) => found.package.is_compiler_std(&cx.program.language) && text_is(
                &found.name,
                module,
            ) && match &item.name {
            Some(text) => text_is(text, name),
            None => false,
        } && match item.kind {
            DefinitionKind::Function { signature: _, is_async: _ } => true,
            _ => false,
        },
        None => false,
    }
}

/// A method with a name that is declared, beside a type and for it.
pub open spec fn is_type_method(
    cx: &Context,
    types: Seq<TyData>,
    item: Definition,
    target: DefId,
    name: Seq<char>,
) -> bool {
    item.module == cx.program.module_of(target) && named(item.name, name) && match item.kind {
        DefinitionKind::Method { owner, signature: _ } => match cx.program.kind_of(owner) {
            Some(
                DefinitionKind::InherentImpl { generic_params: _, target: written, methods: _ },
            ) => match cx.type_refs.lookup(written.0) {
                Some(ty) => ty_data(types, ty) == (TyData::Nominal {
                    definition: target,
                    arguments: Chain::Empty,
                }),
                None => false,
            },
            _ => false,
        },
        _ => false,
    }
}

fn is_plain_nominal(types: &TyInterner, ty: TyId, target: DefId) -> (result: bool)
    requires
        types_wf(types@),
    ensures
        result == (ty_data(types@, ty) == (TyData::Nominal {
            definition: target,
            arguments: Chain::Empty,
        })),
{
    match types.data(ty) {
        TyData::Nominal { definition, arguments } => *definition == target && arguments.is_empty(),
        _ => false,
    }
}

fn check_type_method(
    cx: &Context,
    types: &TyInterner,
    item: &Definition,
    target: DefId,
    name: &str,
) -> (result: bool)
    requires
        types_wf(types@),
    ensures
        result == is_type_method(cx, types@, *item, target, name@),
{
    item.module == cx.program.module(target) && match &item.name {
        Some(text) => text_is(text, name),
        None => false,
    } && match &item.kind {
        DefinitionKind::Method { owner, signature: _ } => match cx.program.kind(*owner) {
            Some(
                DefinitionKind::InherentImpl { generic_params: _, target: written, methods: _ },
            ) => match cx.type_refs.get(written.0) {
                Some(ty) => is_plain_nominal(types, *ty, target),
                None => false,
            },
            _ => false,
        },
        _ => false,
    }
}

/// The owner of the body is the only definition that `accepts` describes.
pub open spec fn owner_is_the_only(cx: &Context, accepts: spec_fn(Definition) -> bool) -> bool {
    forall|i: int|
        0 <= i < cx.program.definitions@.len() ==> (#[trigger] accepts(cx.program.definitions@[i])
            <==> i == cx.environment.owner.0)
}

pub open spec fn is_unique_std_function(cx: &Context, module: Seq<char>, name: Seq<char>) -> bool {
    cx.environment.owner.0 < cx.program.definitions@.len() && owner_is_the_only(
        cx,
        |item: Definition| is_std_function(cx, item, module, name),
    )
}

fn is_unique_compiler_std_function(cx: &Context, module: &str, name: &str) -> (unique: bool)
    ensures
        unique == is_unique_std_function(cx, module@, name@),
{
    let ghost accepts = |item: Definition| is_std_function(cx, item, module@, name@);
    let owner: usize = cx.environment.owner.0 as usize;
    let count: usize = cx.program.definitions.len();
    if owner >= count {
        return false;
    }
    let mut i: usize = 0;
    while i < count
        invariant
            i <= count,
            count == cx.program.definitions@.len(),
            owner == cx.environment.owner.0,
            owner < count,
            forall|item: Definition| #[trigger]
                accepts(item) == is_std_function(cx, item, module@, name@),
            accepts == (|item: Definition| is_std_function(cx, item, module@, name@)),
            forall|j: int|
                0 <= j < i ==> (#[trigger] accepts(cx.program.definitions@[j]) <==> j == owner),
        decreases count - i,
    {
        let accepted = check_std_function(cx, &cx.program.definitions[i], module, name);
        assert(accepted == accepts(cx.program.definitions@[i as int]));
        if accepted != (i == owner) {
            return false;
        }
        i = i + 1;
    }
    true
}

pub open spec fn is_the_type_method(
    cx: &Context,
    types: Seq<TyData>,
    target: Option<DefId>,
    name: Seq<char>,
) -> bool {
    match target {
        None => false,
        Some(target) => cx.environment.owner.0 < cx.program.definitions@.len()
            && owner_is_the_only(
            cx,
            |item: Definition| is_type_method(cx, types, item, target, name),
        ),
    }
}

fn is_canonical_inherent_method(
    cx: &Context,
    types: &TyInterner,
    target: Option<DefId>,
    name: &str,
) -> (result: bool)
    requires
        types_wf(types@),
    ensures
        result == is_the_type_method(cx, types@, target, name@),
{
    let wanted = match target {
        None => return false,
        Some(target) => target,
    };
    let ghost accepts = |item: Definition| is_type_method(cx, types@, item, wanted, name@);
    let owner: usize = cx.environment.owner.0 as usize;
    let count: usize = cx.program.definitions.len();
    if owner >= count {
        return false;
    }
    let mut i: usize = 0;
    while i < count
        invariant
            i <= count,
            count == cx.program.definitions@.len(),
            owner == cx.environment.owner.0,
            owner < count,
            types_wf(types@),
            target == Some(wanted),
            forall|item: Definition| #[trigger]
                accepts(item) == is_type_method(cx, types@, item, wanted, name@),
            accepts == (|item: Definition| is_type_method(cx, types@, item, wanted, name@)),
            forall|j: int|
                0 <= j < i ==> (#[trigger] accepts(cx.program.definitions@[j]) <==> j == owner),
        decreases count - i,
    {
        let accepted = check_type_method(cx, types, &cx.program.definitions[i], wanted, name);
        assert(accepted == accepts(cx.program.definitions@[i as int]));
        if accepted != (i == owner) {
            return false;
        }
        i = i + 1;
    }
    true
}

/// The implementation of a requirement.
pub open spec fn implementation_of(methods: Chain<(DefId, DefId)>, requirement: DefId) -> Option<
    DefId,
>
    decreases methods,
{
    match methods {
        Chain::Empty => None,
        Chain::Link(link) => if link.item.0 == requirement {
            Some(link.item.1)
        } else {
            implementation_of(link.rest, requirement)
        },
    }
}

pub(crate) fn find_implementation(methods: &Chain<(DefId, DefId)>, requirement: DefId) -> (result:
    Option<DefId>)
    ensures
        result == implementation_of(*methods, requirement),
    decreases methods,
{
    match methods {
        Chain::Empty => None,
        Chain::Link(link) => if link.item.0 == requirement {
            Some(link.item.1)
        } else {
            find_implementation(&link.rest, requirement)
        },
    }
}

/// The body is the cleanup of a standard resource type.
pub open spec fn is_the_dispose_method(
    cx: &Context,
    types: Seq<TyData>,
    target: Option<DefId>,
) -> bool {
    match (
        target,
        cx.canonical_concepts.dispose,
        cx.canonical_concepts.dispose_requirement,
    ) {
        (Some(target), Some(dispose), Some(requirement)) => {
            let owner = cx.environment.owner;
            cx.program.module_of(owner) == cx.program.module_of(target)
                && match cx.program.kind_of(owner) {
                Some(DefinitionKind::Method { owner: container, signature: _ }) =>
                    cx.program.kind_of(container) is Some && cx.program.kind_of(container)->0
                        is Conformance && match cx.conformances.lookup(container.0) {
                        Some(conformance) => conformance.concept.concept == dispose && ty_data(
                            types,
                            conformance.target,
                        ) == (TyData::Nominal { definition: target, arguments: Chain::Empty })
                            && implementation_of(conformance.methods, requirement) == Some(owner),
                        None => false,
                    },
                _ => false,
            }
        },
        _ => false,
    }
}

fn is_canonical_dispose_method(cx: &Context, types: &TyInterner, target: Option<DefId>) -> (result:
    bool)
    requires
        types_wf(types@),
    ensures
        result == is_the_dispose_method(cx, types@, target),
{
    match (
        target,
        cx.canonical_concepts.dispose,
        cx.canonical_concepts.dispose_requirement,
    ) {
        (Some(target), Some(dispose), Some(requirement)) => {
            let owner = cx.environment.owner;
            if cx.program.module(owner) != cx.program.module(target) {
                return false;
            }
            match cx.program.kind(owner) {
                Some(DefinitionKind::Method { owner: container, signature: _ }) => {
                    let implements = match cx.program.kind(*container) {
                        Some(
                            DefinitionKind::Conformance {
                                generic_params: _,
                                target: _,
                                concept: _,
                                associated_types: _,
                                methods: _,
                            },
                        ) => true,
                        _ => false,
                    };
                    implements && match cx.conformances.get(container.0) {
                        Some(conformance) => conformance.concept.concept == dispose
                            && is_plain_nominal(types, conformance.target, target)
                            && match find_implementation(&conformance.methods, requirement) {
                            Some(found) => found == owner,
                            None => false,
                        },
                        None => false,
                    }
                },
                _ => false,
            }
        },
        _ => false,
    }
}

/// The body may call the primitive: each of those for resources belongs to one
/// function or method of the standard library.
pub open spec fn is_authorized(
    cx: &Context,
    types: Seq<TyData>,
    primitive: CompilerStdPrimitive,
) -> bool {
    let items = cx.canonical_std_items;
    match primitive {
        CompilerStdPrimitive::FileOpenRead => is_unique_std_function(
            cx,
            "std.file"@,
            "open_read"@,
        ),
        CompilerStdPrimitive::FileCreate => is_unique_std_function(cx, "std.file"@, "create"@),
        CompilerStdPrimitive::FileTryOpenRead => is_unique_std_function(
            cx,
            "std.file"@,
            "try_open_read"@,
        ),
        CompilerStdPrimitive::FileTryCreate => is_unique_std_function(
            cx,
            "std.file"@,
            "try_create"@,
        ),
        CompilerStdPrimitive::FileReadText => is_the_type_method(
            cx,
            types,
            items.file,
            "read_text"@,
        ),
        CompilerStdPrimitive::FileWriteText => is_the_type_method(
            cx,
            types,
            items.file,
            "write_text"@,
        ),
        CompilerStdPrimitive::FileTryReadText => is_the_type_method(
            cx,
            types,
            items.file,
            "try_read_text"@,
        ),
        CompilerStdPrimitive::FileTryWriteText => is_the_type_method(
            cx,
            types,
            items.file,
            "try_write_text"@,
        ),
        CompilerStdPrimitive::FileClose => is_the_dispose_method(cx, types, items.file),
        CompilerStdPrimitive::SocketConnect => is_unique_std_function(
            cx,
            "std.net"@,
            "connect"@,
        ),
        CompilerStdPrimitive::SocketTryConnect => is_unique_std_function(
            cx,
            "std.net"@,
            "try_connect"@,
        ),
        CompilerStdPrimitive::SocketReadText => is_the_type_method(
            cx,
            types,
            items.socket,
            "read_text"@,
        ),
        CompilerStdPrimitive::SocketWriteText => is_the_type_method(
            cx,
            types,
            items.socket,
            "write_text"@,
        ),
        CompilerStdPrimitive::SocketTryReadText => is_the_type_method(
            cx,
            types,
            items.socket,
            "try_read_text"@,
        ),
        CompilerStdPrimitive::SocketTryWriteText => is_the_type_method(
            cx,
            types,
            items.socket,
            "try_write_text"@,
        ),
        CompilerStdPrimitive::SocketClose => is_the_dispose_method(cx, types, items.socket),
        CompilerStdPrimitive::IoErrorKind => is_the_type_method(
            cx,
            types,
            items.io_error,
            "kind"@,
        ),
        CompilerStdPrimitive::IoErrorMessage => is_the_type_method(
            cx,
            types,
            items.io_error,
            "message"@,
        ),
        _ => true,
    }
}

fn compiler_std_primitive_owner_is_authorized(
    cx: &Context,
    types: &TyInterner,
    primitive: CompilerStdPrimitive,
) -> (result: bool)
    requires
        types_wf(types@),
    ensures
        result == is_authorized(cx, types@, primitive),
{
    let items = cx.canonical_std_items;
    match primitive {
        CompilerStdPrimitive::FileOpenRead => is_unique_compiler_std_function(
            cx,
            "std.file",
            "open_read",
        ),
        CompilerStdPrimitive::FileCreate => is_unique_compiler_std_function(
            cx,
            "std.file",
            "create",
        ),
        CompilerStdPrimitive::FileTryOpenRead => is_unique_compiler_std_function(
            cx,
            "std.file",
            "try_open_read",
        ),
        CompilerStdPrimitive::FileTryCreate => is_unique_compiler_std_function(
            cx,
            "std.file",
            "try_create",
        ),
        CompilerStdPrimitive::FileReadText => is_canonical_inherent_method(
            cx,
            types,
            items.file,
            "read_text",
        ),
        CompilerStdPrimitive::FileWriteText => is_canonical_inherent_method(
            cx,
            types,
            items.file,
            "write_text",
        ),
        CompilerStdPrimitive::FileTryReadText => is_canonical_inherent_method(
            cx,
            types,
            items.file,
            "try_read_text",
        ),
        CompilerStdPrimitive::FileTryWriteText => is_canonical_inherent_method(
            cx,
            types,
            items.file,
            "try_write_text",
        ),
        CompilerStdPrimitive::FileClose => is_canonical_dispose_method(cx, types, items.file),
        CompilerStdPrimitive::SocketConnect => is_unique_compiler_std_function(
            cx,
            "std.net",
            "connect",
        ),
        CompilerStdPrimitive::SocketTryConnect => is_unique_compiler_std_function(
            cx,
            "std.net",
            "try_connect",
        ),
        CompilerStdPrimitive::SocketReadText => is_canonical_inherent_method(
            cx,
            types,
            items.socket,
            "read_text",
        ),
        CompilerStdPrimitive::SocketWriteText => is_canonical_inherent_method(
            cx,
            types,
            items.socket,
            "write_text",
        ),
        CompilerStdPrimitive::SocketTryReadText => is_canonical_inherent_method(
            cx,
            types,
            items.socket,
            "try_read_text",
        ),
        CompilerStdPrimitive::SocketTryWriteText => is_canonical_inherent_method(
            cx,
            types,
            items.socket,
            "try_write_text",
        ),
        CompilerStdPrimitive::SocketClose => is_canonical_dispose_method(cx, types, items.socket),
        CompilerStdPrimitive::IoErrorKind => is_canonical_inherent_method(
            cx,
            types,
            items.io_error,
            "kind",
        ),
        CompilerStdPrimitive::IoErrorMessage => is_canonical_inherent_method(
            cx,
            types,
            items.io_error,
            "message",
        ),
        _ => true,
    }
}

impl World {
    /// Whether a path names a value.
    #[verifier::opaque]
    pub open spec fn value_path_lookup(self, cx: &Context, path: Path) -> ValuePathLookup {
        let bound = match path.single() {
            Some(segment) => visible_local(cx, self.st.scopes, segment.name@) is Some
                || param_named(cx, cx.environment.params, segment.name@) is Some,
            None => false,
        };
        if bound {
            ValuePathLookup::Bound
        } else {
            match path.value {
                Resolved::Found(_) => ValuePathLookup::Bound,
                Resolved::Missing => ValuePathLookup::Missing,
                _ => ValuePathLookup::Invalid,
            }
        }
    }

    /// The path is the task namespace: `Task`, where nothing else has that
    /// name.
    #[verifier::opaque]
    pub open spec fn names_task_namespace(self, cx: &Context, path: Path) -> bool {
        match path.single() {
            Some(segment) => segment.name@ == "Task"@ && self.value_path_lookup(cx, path)
                == ValuePathLookup::Missing && !names_import(
                cx.program,
                cx.program.module_of(cx.environment.owner),
                segment,
            ) && !names_generic_param(cx, path) && path.ty is Missing,
            None => false,
        }
    }

    /// The primitive that a call reaches.
    #[verifier::opaque]
    pub open spec fn primitive_call(self, cx: &Context, path: Path) -> Option<
        CompilerStdPrimitive,
    > {
        if self.value_path_lookup(cx, path) != ValuePathLookup::Missing {
            None
        } else {
            match path.primitive {
                Some(primitive) => if is_authorized(cx, self.types, primitive) {
                    Some(primitive)
                } else {
                    None
                },
                None => None,
            }
        }
    }

    /// A path that stands for no definition is reported.
    #[verifier::opaque]
    pub open spec fn report_unresolved(self, path: Path, resolved: Resolved) -> World {
        match resolved {
            Resolved::Found(_) => self,
            Resolved::Missing => self.error(
                "UnknownName",
                Message::Path("unknown name `", path.segments, "`"),
                path.last_span(),
            ),
            Resolved::Duplicate => self.error(
                "DuplicateDeclaration",
                Message::Path("`", path.segments, "` has multiple declarations"),
                path.last_span(),
            ),
            Resolved::Private => self.error(
                "NameNotVisible",
                Message::Path("`", path.segments, "` is not visible here"),
                path.last_span(),
            ),
            Resolved::UnknownModule(module) => self.error(
                "UnknownName",
                Message::Name("unknown module `", module, "`"),
                path.last_span(),
            ),
        }
    }

    /// Whether the expression may stand in a contract.
    #[verifier::opaque]
    pub open spec fn validate_contract_shape(self, cx: &Context, e: Expr) -> World {
        let valid = match e.kind {
            ExprKind::Error => true,
            ExprKind::Literal(_) => true,
            ExprKind::Path(_) => true,
            ExprKind::SelfValue => true,
            ExprKind::ResultValue => true,
            ExprKind::Old(_) => true,
            ExprKind::Field { receiver: _, name: _ } => true,
            ExprKind::Unary { op: _, operand: _ } => true,
            ExprKind::Binary { op: _, left: _, right: _ } => true,
            ExprKind::Match { scrutinee: _, arms: _ } => true,
            ExprKind::Call { callee, type_arguments: _, arguments: _ } => match callee.kind {
                ExprKind::Path(path) => match path.value {
                    Resolved::Found(definition) => cx.canonical_std_items.is_finite == Some(
                        definition,
                    ),
                    _ => false,
                },
                _ => false,
            },
            _ => false,
        };
        if self.st.contract == ContractMode::Ordinary || valid {
            self
        } else {
            self.text_error(
                "InvalidContractExpression",
                "expression is outside the pure, effect-restricted contract predicate subset",
                e.span,
            )
        }
    }

    #[verifier::opaque]
    pub open spec fn check_literal(self, e: Expr, literal: Literal) -> (World, TyId) {
        match literal {
            Literal::Bool(_) => (self, builtin_ty(BuiltinType::Bool)),
            Literal::Int(text) => (
                if literal_int(text@) is None {
                    self.text_error(
                        "IntegerLiteralOutOfRange",
                        "integer literal is outside the Int range",
                        e.span,
                    )
                } else {
                    self
                },
                builtin_ty(BuiltinType::Int),
            ),
            Literal::Float(_, bits) => (
                if !is_finite_literal(bits) {
                    self.text_error(
                        "FloatLiteralOutOfRange",
                        "float literal is outside the finite literal range",
                        e.span,
                    )
                } else {
                    self
                },
                builtin_ty(BuiltinType::Float),
            ),
            Literal::Text(_) => (self, builtin_ty(BuiltinType::Text)),
            Literal::Unit => (self, builtin_ty(BuiltinType::Unit)),
        }
    }

    /// A resource that a name stands for is moved into a `scoped` binding, or
    /// may not be used otherwise.
    #[verifier::opaque]
    pub open spec fn use_must_scope_local(self, e: Expr, local: LocalId) -> World {
        let w = if has_id(self.st.flow.transferred_must_scope_locals, local.0)
            && !self.st.checking_discard_operand {
            self.text_error(
                "MustScopeAlreadyTransferred",
                "this resource was already transferred into a scoped binding",
                e.span,
            )
        } else {
            self
        };
        let w = if has_id(w.st.flow.pending_must_scope_locals, local.0) {
            if w.st.scoped_initializer == Some(e.id) {
                w.with_flow(
                    FlowState {
                        pending_must_scope_locals: id_removed(
                            w.st.flow.pending_must_scope_locals,
                            local.0,
                        ),
                        transferred_must_scope_locals: id_inserted(
                            w.st.flow.transferred_must_scope_locals,
                            local.0,
                        ),
                        ..w.st.flow
                    },
                )
            } else if !w.st.checking_discard_operand {
                w.text_error(
                    "MustScopeRequiresScoped",
                    "a resource extracted from a wrapper must be moved directly into `scoped`",
                    e.span,
                )
            } else {
                w
            }
        } else {
            w
        };
        if has_id(w.st.scoped_locals, local.0) && !w.st.checking_assignment_target
            && !w.st.checking_scoped_receiver && !w.st.checking_discard_operand {
            w.text_error(
                "ScopedValueCopy",
                "a scoped resource cannot be copied, returned, stored, or passed as a value",
                e.span,
            )
        } else {
            w
        }
    }

    /// The expression is a place that is read, unless it is assigned to.
    #[verifier::opaque]
    pub open spec fn read_place(self, e: Expr, place: Place) -> World {
        let w = if !self.st.checking_assignment_target {
            self.check_borrowed_place_use(place, PlaceAccess::Read, e.span)
        } else {
            self
        };
        w.set_place(e.id, place)
    }

    #[verifier::opaque]
    pub open spec fn check_local(self, cx: &Context, e: Expr, local: LocalId) -> (World, TyId) {
        let w = self.use_must_scope_local(e, local).set_resolution(e.id, Resolution::Local(local));
        let ty = match w.st.semantics.local_types.lookup(local.0) {
            Some(ty) => ty,
            None => error_ty(),
        };
        let mutable = match cx.local_of(local) {
            Some(found) => found.mutable,
            None => false,
        };
        let w = if mutable && w.st.contract != ContractMode::Ordinary {
            w.text_error(
                "InvalidContractExpression",
                "contract predicates may only read immutable locals",
                e.span,
            )
        } else {
            w
        };
        (
            w.read_place(
                e,
                Place {
                    root: PlaceRoot::Local(local),
                    projections: Chain::Empty,
                    mutability: if mutable {
                        Mutability::Mutable
                    } else {
                        Mutability::ReadOnly
                    },
                },
            ),
            ty,
        )
    }

    #[verifier::opaque]
    pub open spec fn check_param(
        self,
        cx: &Context,
        e: Expr,
        parameter: ParamId,
        ty: TyId,
    ) -> World {
        self.reject_task_exit_contract_input(cx, e.span, ty).set_resolution(
            e.id,
            Resolution::Param(parameter),
        ).read_place(
            e,
            Place {
                root: PlaceRoot::Param(parameter),
                projections: Chain::Empty,
                mutability: Mutability::ReadOnly,
            },
        )
    }

    #[verifier::opaque]
    pub open spec fn check_definition_path(self, cx: &Context, e: Expr, path: Path) -> (
        World,
        TyId,
    ) {
        match path.value {
            Resolved::Found(definition) => {
                let w = self.set_resolution(e.id, Resolution::Definition(definition));
                match cx.program.kind_of(definition) {
                    Some(DefinitionKind::Constant { ty: _, value: _ }) => (
                        w,
                        match cx.signature_of(definition) {
                            Some(Signature::Constant { ty }) => ty,
                            _ => error_ty(),
                        },
                    ),
                    _ => (
                        w.text_error(
                            "TypeMismatch",
                            "functions are not first-class values; call this name",
                            e.span,
                        ),
                        error_ty(),
                    ),
                }
            },
            _ => (
                self.report_unresolved(path, path.value).set_resolution(e.id, Resolution::Error),
                error_ty(),
            ),
        }
    }

    #[verifier::opaque]
    pub open spec fn check_none(self, e: Expr, expected: Option<TyId>) -> (World, TyId) {
        let w = self.set_resolution(e.id, Resolution::Builtin(BuiltinValue::OptionNone));
        let wanted = match expected {
            Some(expected) => w.data(expected) is Option,
            None => false,
        };
        if wanted {
            (w, expected->0)
        } else {
            (
                w.text_error("CannotInferType", "`None` needs an expected Option type", e.span),
                error_ty(),
            )
        }
    }

    #[verifier::opaque]
    pub open spec fn check_path(
        self,
        cx: &Context,
        e: Expr,
        path: Path,
        expected: Option<TyId>,
    ) -> (
        World,
        TyId,
    ) {
        match path.single() {
            None => self.check_definition_path(cx, e, path),
            Some(segment) => match visible_local(cx, self.st.scopes, segment.name@) {
                Some(local) => self.check_local(cx, e, local),
                None => match param_named(cx, cx.environment.params, segment.name@) {
                    Some((parameter, ty)) => (self.check_param(cx, e, parameter, ty), ty),
                    None => if segment.name@ == "Unit"@ {
                        (
                            self.set_resolution(e.id, Resolution::Builtin(BuiltinValue::Unit)),
                            builtin_ty(BuiltinType::Unit),
                        )
                    } else if segment.name@ == "None"@ {
                        self.check_none(e, expected)
                    } else {
                        self.check_definition_path(cx, e, path)
                    },
                },
            },
        }
    }

    #[verifier::opaque]
    pub open spec fn check_self(self, cx: &Context, e: Expr) -> (World, TyId) {
        match cx.environment.self_ty {
            None => (
                self.text_error("UnknownName", "`self` is not available here", e.span),
                error_ty(),
            ),
            Some(ty) => {
                let w = self.reject_task_exit_contract_input(cx, e.span, ty);
                let escapes = !w.st.allow_dirty_self_projection
                    && !w.st.checking_assignment_target;
                let w = if w.st.cleanup_depth > 0 && escapes {
                    w.add_boundary(e.id, e.span)
                } else {
                    w
                };
                let w = if w.st.flow.self_dirty && escapes {
                    w.text_error(
                        "InvariantIsolationViolation",
                        "a mutated receiver cannot escape or cross another call before its invariant boundary",
                        e.span,
                    )
                } else {
                    w
                };
                (
                    w.set_resolution(e.id, Resolution::SelfValue).read_place(
                        e,
                        Place {
                            root: PlaceRoot::SelfValue,
                            projections: Chain::Empty,
                            mutability: if cx.environment.receiver == Some(ReceiverKind::Mutable) {
                                Mutability::Mutable
                            } else {
                                Mutability::ReadOnly
                            },
                        },
                    ),
                    ty,
                )
            },
        }
    }

    #[verifier::opaque]
    pub open spec fn check_result(self, cx: &Context, e: Expr) -> (World, TyId) {
        match cx.environment.result_ty {
            None => (
                self.text_error(
                    "UnknownName",
                    "`result` is only available in ensures",
                    e.span,
                ),
                error_ty(),
            ),
            Some(ty) => (self.set_resolution(e.id, Resolution::ResultValue), ty),
        }
    }
}

/// The literal denotes a double that is not infinite.
pub open spec fn is_finite_literal(bits: Option<u64>) -> bool {
    match bits {
        Some(bits) => bits != 0x7ff0_0000_0000_0000 && bits != 0xfff0_0000_0000_0000,
        None => false,
    }
}

impl BodyChecker {
    pub fn value_path_lookup(&self, cx: &Context, path: &Path) -> (lookup: ValuePathLookup)
        ensures
            lookup == self@.value_path_lookup(cx, *path),
    {
        proof {
            reveal(World::value_path_lookup);
        }
        match path.only_segment() {
            Some(segment) => if find_visible_local(cx, &self.st.scopes, &segment.name).is_some()
                || find_param(cx, &cx.environment.params, &segment.name).is_some() {
                return ValuePathLookup::Bound;
            },
            None => {},
        }
        match &path.value {
            Resolved::Found(_) => ValuePathLookup::Bound,
            Resolved::Missing => ValuePathLookup::Missing,
            _ => ValuePathLookup::Invalid,
        }
    }

    pub fn resolves_task_intrinsic_namespace(&self, cx: &Context, path: &Path) -> (result: bool)
        ensures
            result == self@.names_task_namespace(cx, *path),
    {
        proof {
            reveal(World::names_task_namespace);
        }
        match path.only_segment() {
            Some(segment) => text_is(&segment.name, "Task") && self.value_path_lookup(cx, path)
                == ValuePathLookup::Missing && !check_import(
                cx.program,
                cx.program.module(cx.environment.owner),
                segment,
            ) && !check_generic_param(cx, path) && match &path.ty {
                Resolved::Missing => true,
                _ => false,
            },
            None => false,
        }
    }

    pub fn compiler_std_primitive_call(&self, cx: &Context, path: &Path) -> (primitive: Option<
        CompilerStdPrimitive,
    >)
        requires
            self.wf(),
        ensures
            primitive == self@.primitive_call(cx, *path),
    {
        proof {
            reveal(World::primitive_call);
        }
        if self.value_path_lookup(cx, path) != ValuePathLookup::Missing {
            return None;
        }
        match path.primitive {
            Some(primitive) => if compiler_std_primitive_owner_is_authorized(
                cx,
                &self.types,
                primitive,
            ) {
                Some(primitive)
            } else {
                None
            },
            None => None,
        }
    }

    pub fn report_unresolved(&mut self, path: &Path, resolved: &Resolved)
        ensures
            adds_to(old(self)@.st.diagnostics, final(self)@.st.diagnostics),
            final(self)@.types == old(self)@.types,
            final(self)@ == old(self)@.report_unresolved(*path, *resolved),
    {
        proof {
            reveal(World::report_unresolved);
        }
        match resolved {
            Resolved::Found(_) => {},
            Resolved::Missing => self.error(
                "UnknownName",
                Message::Path("unknown name `", path.segments.clone(), "`"),
                path.end_span(),
            ),
            Resolved::Duplicate => self.error(
                "DuplicateDeclaration",
                Message::Path("`", path.segments.clone(), "` has multiple declarations"),
                path.end_span(),
            ),
            Resolved::Private => self.error(
                "NameNotVisible",
                Message::Path("`", path.segments.clone(), "` is not visible here"),
                path.end_span(),
            ),
            Resolved::UnknownModule(module) => self.error(
                "UnknownName",
                Message::Name("unknown module `", module.clone(), "`"),
                path.end_span(),
            ),
        }
    }

    pub fn validate_contract_shape(&mut self, cx: &Context, e: &Expr)
        ensures
            adds_to(old(self)@.st.diagnostics, final(self)@.st.diagnostics),
            final(self)@.types == old(self)@.types,
            final(self)@ == old(self)@.validate_contract_shape(cx, *e),
    {
        proof {
            reveal(World::validate_contract_shape);
        }
        if self.st.contract == ContractMode::Ordinary {
            return;
        }
        let valid = match &e.kind {
            ExprKind::Error
            | ExprKind::Literal(_)
            | ExprKind::Path(_)
            | ExprKind::SelfValue
            | ExprKind::ResultValue
            | ExprKind::Old(_)
            | ExprKind::Field { receiver: _, name: _ }
            | ExprKind::Unary { op: _, operand: _ }
            | ExprKind::Binary { op: _, left: _, right: _ }
            | ExprKind::Match { scrutinee: _, arms: _ } => true,
            ExprKind::Call { callee, type_arguments: _, arguments: _ } => match &callee.kind {
                ExprKind::Path(path) => match find(&path.value) {
                    Some(definition) => cx.canonical_std_items.is_finite == Some(definition),
                    None => false,
                },
                _ => false,
            },
            _ => false,
        };
        if !valid {
            self.text_error(
                "InvalidContractExpression",
                "expression is outside the pure, effect-restricted contract predicate subset",
                e.span,
            );
        }
    }

    pub fn check_literal(&mut self, e: &Expr, literal: &Literal) -> (ty: TyId)
        ensures
            adds_to(old(self)@.st.diagnostics, final(self)@.st.diagnostics),
            final(self)@.types == old(self)@.types,
            (final(self)@, ty) == old(self)@.check_literal(*e, *literal),
    {
        proof {
            reveal(World::check_literal);
        }
        match literal {
            Literal::Bool(_) => self.builtin(BuiltinType::Bool),
            Literal::Int(text) => {
                if parse_int(text.as_str()).is_none() {
                    self.text_error(
                        "IntegerLiteralOutOfRange",
                        "integer literal is outside the Int range",
                        e.span,
                    );
                }
                self.builtin(BuiltinType::Int)
            },
            Literal::Float(_, bits) => {
                let finite = match bits {
                    Some(bits) => *bits != 0x7ff0_0000_0000_0000 && *bits != 0xfff0_0000_0000_0000,
                    None => false,
                };
                if !finite {
                    self.text_error(
                        "FloatLiteralOutOfRange",
                        "float literal is outside the finite literal range",
                        e.span,
                    );
                }
                self.builtin(BuiltinType::Float)
            },
            Literal::Text(_) => self.builtin(BuiltinType::Text),
            Literal::Unit => self.builtin(BuiltinType::Unit),
        }
    }

    fn use_must_scope_local(&mut self, e: &Expr, local: LocalId)
        ensures
            adds_to(old(self)@.st.diagnostics, final(self)@.st.diagnostics),
            final(self)@.types == old(self)@.types,
            final(self)@ == old(self)@.use_must_scope_local(*e, local),
    {
        proof {
            reveal(World::use_must_scope_local);
        }
        if contains_id(&self.st.flow.transferred_must_scope_locals, local.0)
            && !self.st.checking_discard_operand {
            self.text_error(
                "MustScopeAlreadyTransferred",
                "this resource was already transferred into a scoped binding",
                e.span,
            );
        }
        if contains_id(&self.st.flow.pending_must_scope_locals, local.0) {
            let moved = match self.st.scoped_initializer {
                Some(initializer) => initializer == e.id,
                None => false,
            };
            if moved {
                self.st.flow.pending_must_scope_locals = remove_id(
                    &self.st.flow.pending_must_scope_locals,
                    local.0,
                );
                self.st.flow.transferred_must_scope_locals = insert_id(
                    &self.st.flow.transferred_must_scope_locals,
                    local.0,
                );
            } else if !self.st.checking_discard_operand {
                self.text_error(
                    "MustScopeRequiresScoped",
                    "a resource extracted from a wrapper must be moved directly into `scoped`",
                    e.span,
                );
            }
        }
        if contains_id(&self.st.scoped_locals, local.0) && !self.st.checking_assignment_target
            && !self.st.checking_scoped_receiver && !self.st.checking_discard_operand {
            self.text_error(
                "ScopedValueCopy",
                "a scoped resource cannot be copied, returned, stored, or passed as a value",
                e.span,
            );
        }
    }

    fn read_place(&mut self, e: &Expr, place: Place)
        ensures
            adds_to(old(self)@.st.diagnostics, final(self)@.st.diagnostics),
            final(self)@.types == old(self)@.types,
            final(self)@ == old(self)@.read_place(*e, place),
    {
        proof {
            reveal(World::read_place);
        }
        if !self.st.checking_assignment_target {
            self.check_borrowed_place_use(&place, PlaceAccess::Read, e.span);
        }
        self.set_place(e.id, place);
    }

    fn check_local(&mut self, cx: &Context, e: &Expr, local: LocalId) -> (ty: TyId)
        ensures
            adds_to(old(self)@.st.diagnostics, final(self)@.st.diagnostics),
            final(self)@.types == old(self)@.types,
            (final(self)@, ty) == old(self)@.check_local(cx, *e, local),
    {
        proof {
            reveal(World::check_local);
        }
        self.use_must_scope_local(e, local);
        self.set_resolution(e.id, Resolution::Local(local));
        let ty = match self.st.semantics.local_types.get(local.0) {
            Some(ty) => *ty,
            None => TyId(0),
        };
        let mutable = match cx.local(local) {
            Some(found) => found.mutable,
            None => false,
        };
        if mutable && self.st.contract != ContractMode::Ordinary {
            self.text_error(
                "InvalidContractExpression",
                "contract predicates may only read immutable locals",
                e.span,
            );
        }
        self.read_place(
            e,
            Place {
                root: PlaceRoot::Local(local),
                projections: Chain::new(),
                mutability: if mutable {
                    Mutability::Mutable
                } else {
                    Mutability::ReadOnly
                },
            },
        );
        ty
    }

    fn check_param(&mut self, cx: &Context, e: &Expr, parameter: ParamId, ty: TyId)
        requires
            old(self).wf(),
        ensures
            adds_to(old(self)@.st.diagnostics, final(self)@.st.diagnostics),
            final(self).wf(),
            later(old(self)@.types, final(self)@.types),
            final(self)@ == old(self)@.check_param(cx, *e, parameter, ty),
    {
        proof {
            reveal(World::check_param);
        }
        self.reject_task_exit_contract_input(cx, e.span, ty);
        self.set_resolution(e.id, Resolution::Param(parameter));
        self.read_place(
            e,
            Place {
                root: PlaceRoot::Param(parameter),
                projections: Chain::new(),
                mutability: Mutability::ReadOnly,
            },
        );
    }

    fn check_definition_path(&mut self, cx: &Context, e: &Expr, path: &Path) -> (ty: TyId)
        ensures
            adds_to(old(self)@.st.diagnostics, final(self)@.st.diagnostics),
            final(self)@.types == old(self)@.types,
            (final(self)@, ty) == old(self)@.check_definition_path(cx, *e, *path),
    {
        proof {
            reveal(World::check_definition_path);
        }
        match &path.value {
            Resolved::Found(definition) => {
                self.set_resolution(e.id, Resolution::Definition(*definition));
                match cx.program.kind(*definition) {
                    Some(DefinitionKind::Constant { ty: _, value: _ }) => match cx.signature(
                        *definition,
                    ) {
                        Some(Signature::Constant { ty }) => *ty,
                        _ => TyId(0),
                    },
                    _ => {
                        self.text_error(
                            "TypeMismatch",
                            "functions are not first-class values; call this name",
                            e.span,
                        );
                        TyId(0)
                    },
                }
            },
            _ => {
                self.report_unresolved(path, &path.value);
                self.set_resolution(e.id, Resolution::Error);
                TyId(0)
            },
        }
    }

    fn check_none(&mut self, e: &Expr, expected: Option<TyId>) -> (ty: TyId)
        requires
            old(self).wf(),
        ensures
            adds_to(old(self)@.st.diagnostics, final(self)@.st.diagnostics),
            final(self).wf(),
            later(old(self)@.types, final(self)@.types),
            (final(self)@, ty) == old(self)@.check_none(*e, expected),
    {
        proof {
            reveal(World::check_none);
        }
        self.set_resolution(e.id, Resolution::Builtin(BuiltinValue::OptionNone));
        match expected {
            Some(expected) => match self.types.data(expected) {
                TyData::Option(_) => return expected,
                _ => {},
            },
            None => {},
        }
        self.text_error("CannotInferType", "`None` needs an expected Option type", e.span);
        TyId(0)
    }

    pub fn check_path(
        &mut self,
        cx: &Context,
        e: &Expr,
        path: &Path,
        expected: Option<TyId>,
    ) -> (ty:
        TyId)
        requires
            old(self).wf(),
        ensures
            adds_to(old(self)@.st.diagnostics, final(self)@.st.diagnostics),
            final(self).wf(),
            later(old(self)@.types, final(self)@.types),
            (final(self)@, ty) == old(self)@.check_path(cx, *e, *path, expected),
    {
        proof {
            reveal(World::check_path);
        }
        match path.only_segment() {
            None => self.check_definition_path(cx, e, path),
            Some(segment) => match find_visible_local(cx, &self.st.scopes, &segment.name) {
                Some(local) => self.check_local(cx, e, local),
                None => match find_param(cx, &cx.environment.params, &segment.name) {
                    Some((parameter, ty)) => {
                        self.check_param(cx, e, parameter, ty);
                        ty
                    },
                    None => if text_is(&segment.name, "Unit") {
                        self.set_resolution(e.id, Resolution::Builtin(BuiltinValue::Unit));
                        self.builtin(BuiltinType::Unit)
                    } else if text_is(&segment.name, "None") {
                        self.check_none(e, expected)
                    } else {
                        self.check_definition_path(cx, e, path)
                    },
                },
            },
        }
    }

    pub fn check_self(&mut self, cx: &Context, e: &Expr) -> (ty: TyId)
        requires
            old(self).wf(),
        ensures
            adds_to(old(self)@.st.diagnostics, final(self)@.st.diagnostics),
            final(self).wf(),
            later(old(self)@.types, final(self)@.types),
            (final(self)@, ty) == old(self)@.check_self(cx, *e),
    {
        proof {
            reveal(World::check_self);
        }
        match cx.environment.self_ty {
            None => {
                self.text_error("UnknownName", "`self` is not available here", e.span);
                TyId(0)
            },
            Some(ty) => {
                self.reject_task_exit_contract_input(cx, e.span, ty);
                let escapes = !self.st.allow_dirty_self_projection
                    && !self.st.checking_assignment_target;
                if self.st.cleanup_depth > 0 && escapes {
                    self.add_boundary(e.id, e.span);
                }
                if self.st.flow.self_dirty && escapes {
                    self.text_error(
                        "InvariantIsolationViolation",
                        "a mutated receiver cannot escape or cross another call before its invariant boundary",
                        e.span,
                    );
                }
                self.set_resolution(e.id, Resolution::SelfValue);
                let mutable = match cx.environment.receiver {
                    Some(ReceiverKind::Mutable) => true,
                    _ => false,
                };
                self.read_place(
                    e,
                    Place {
                        root: PlaceRoot::SelfValue,
                        projections: Chain::new(),
                        mutability: if mutable {
                            Mutability::Mutable
                        } else {
                            Mutability::ReadOnly
                        },
                    },
                );
                ty
            },
        }
    }

    pub fn check_result(&mut self, cx: &Context, e: &Expr) -> (ty: TyId)
        ensures
            adds_to(old(self)@.st.diagnostics, final(self)@.st.diagnostics),
            final(self)@.types == old(self)@.types,
            (final(self)@, ty) == old(self)@.check_result(cx, *e),
    {
        proof {
            reveal(World::check_result);
        }
        match cx.environment.result_ty {
            None => {
                self.text_error("UnknownName", "`result` is only available in ensures", e.span);
                TyId(0)
            },
            Some(ty) => {
                self.set_resolution(e.id, Resolution::ResultValue);
                ty
            },
        }
    }
}

} // verus!
