//! The declarations that the language relies on, and the concepts that can be
//! used through interfaces.

use vstd::prelude::*;

use crate::canonical::ItemKind;
use crate::chain::Chain;
use crate::conforming::errors;
use crate::diagnostics::reported;
use crate::hir::{
    at, named, CallableSource, DefinitionKind, Pattern, Program, ReceiverKind, TypeRefKind,
};
use crate::ids::{DefId, ParamId, Span, TyId, TypeRefId};
use crate::judgements::may_stand;
use crate::resolve::{Names, RESOLUTION_LIMIT};
use crate::state::{Context, World};
use crate::survey::Survey;

verus! {

/// The declaration is of the standard library, in the module and under the name
/// that are asked for, and of the kind that is.
pub open spec fn is_declared(
    program: &Program,
    item: DefId,
    module: Seq<char>,
    name: Seq<char>,
    kind: ItemKind,
) -> bool {
    &&& item.0 < program.definitions@.len()
    &&& ({
        let found = program.definitions@[item.0 as int];
        &&& match at(program.modules@, found.module.0) {
            Some(home) => home.package.is_std_of(program.language@) && home.name@ == module,
            None => false,
        }
        &&& named(found.name, name)
        &&& match kind {
            ItemKind::Concept => found.kind is Concept,
            ItemKind::Enum => found.kind is Enum,
            ItemKind::Function => found.kind is Function,
            ItemKind::Record => found.kind is Record,
        }
    })
}

proof fn lemma_standard_item(
    program: &Program,
    start: nat,
    module: Seq<char>,
    name: Seq<char>,
    kind: ItemKind,
)
    requires
        program.definitions@.len() <= u32::MAX,
    ensures
        match program.standard_item_from(start, module, name, kind) {
            Some(item) => start <= item.0 && is_declared(program, item, module, name, kind)
                && forall|other: DefId|
                start <= other.0 < item.0 ==> !#[trigger] is_declared(
                    program,
                    other,
                    module,
                    name,
                    kind,
                ),
            None => forall|other: DefId|
                start <= other.0 ==> !#[trigger] is_declared(program, other, module, name, kind),
        },
    decreases program.definitions@.len() - start,
{
    if start < program.definitions@.len() {
        let here = DefId(start as u32);
        assert(program.is_standard_item(program.definitions@[start as int], module, name, kind)
            == is_declared(program, here, module, name, kind));
        lemma_standard_item(program, start + 1, module, name, kind);
        assert forall|other: DefId| other.0 == start implies other == here by {}
    }
}

/// An item of the standard library is the first declaration of its module, name
/// and kind; there is none only if nothing is declared so.
pub proof fn law_standard_items(
    program: &Program,
    module: Seq<char>,
    name: Seq<char>,
    kind: ItemKind,
    other: DefId,
)
    requires
        program.definitions@.len() <= u32::MAX,
    ensures
        match program.standard_item(module, name, kind) {
            Some(item) => is_declared(program, item, module, name, kind) && (is_declared(
                program,
                other,
                module,
                name,
                kind,
            ) ==> item.0 <= other.0),
            None => !is_declared(program, other, module, name, kind),
        },
{
    lemma_standard_item(program, 0, module, name, kind);
}

/// The concepts that the language knows are those of the resource module, each
/// under its own name.
pub proof fn law_language_concepts(program: &Program)
    requires
        program.definitions@.len() <= u32::MAX,
    ensures
        ({
            let known = program.canonical_concepts();
            let module = "std.resource"@;
            &&& known.dispose is Some ==> is_declared(
                program,
                known.dispose->0,
                module,
                "Dispose"@,
                ItemKind::Concept,
            )
            &&& known.must_scope is Some ==> is_declared(
                program,
                known.must_scope->0,
                module,
                "MustScope"@,
                ItemKind::Concept,
            )
            &&& known.no_suspend is Some ==> is_declared(
                program,
                known.no_suspend->0,
                module,
                "NoSuspend"@,
                ItemKind::Concept,
            )
            &&& known.dispose is None ==> known.dispose_requirement is None
            &&& known.dispose is Some ==> known.dispose_requirement == program.requirement_named(
                known.dispose->0,
                "dispose"@,
            )
            &&& known.dispose is None ==> forall|item: DefId| !#[trigger]
                is_declared(program, item, module, "Dispose"@, ItemKind::Concept)
            &&& known.must_scope is None ==> forall|item: DefId| !#[trigger]
                is_declared(program, item, module, "MustScope"@, ItemKind::Concept)
            &&& known.no_suspend is None ==> forall|item: DefId| !#[trigger]
                is_declared(program, item, module, "NoSuspend"@, ItemKind::Concept)
        }),
{
    lemma_standard_item(program, 0, "std.resource"@, "Dispose"@, ItemKind::Concept);
    lemma_standard_item(program, 0, "std.resource"@, "MustScope"@, ItemKind::Concept);
    lemma_standard_item(program, 0, "std.resource"@, "NoSuspend"@, ItemKind::Concept);
}

/// An item is either found where it is declared, or is not declared.
pub open spec fn is_item(
    program: &Program,
    item: Option<DefId>,
    module: Seq<char>,
    name: Seq<char>,
    kind: ItemKind,
) -> bool {
    match item {
        Some(found) => is_declared(program, found, module, name, kind),
        None => forall|other: DefId| !#[trigger] is_declared(program, other, module, name, kind),
    }
}

/// The declarations of the standard library that the language knows are those
/// of their modules, under their names and of their kinds.
pub proof fn law_library_items(program: &Program)
    requires
        program.definitions@.len() <= u32::MAX,
    ensures
        ({
            let known = program.canonical_std_items();
            &&& is_item(
                program,
                known.is_finite,
                "std.float"@,
                "is_finite"@,
                ItemKind::Function,
            )
            &&& is_item(
                program,
                known.decode_text_error,
                "std.text"@,
                "DecodeTextError"@,
                ItemKind::Enum,
            )
            &&& is_item(program, known.file, "std.file"@, "File"@, ItemKind::Record)
            &&& is_item(program, known.io_error, "std.io"@, "IoError"@, ItemKind::Record)
            &&& is_item(program, known.io_error_kind, "std.io"@, "IoErrorKind"@, ItemKind::Enum)
            &&& is_item(program, known.json, "std.json"@, "Json"@, ItemKind::Enum)
            &&& is_item(program, known.json_error, "std.json"@, "JsonError"@, ItemKind::Enum)
            &&& is_item(program, known.log_level, "std.log"@, "LogLevel"@, ItemKind::Enum)
            &&& is_item(program, known.path_error, "std.path"@, "PathError"@, ItemKind::Enum)
            &&& is_item(program, known.socket, "std.net"@, "Socket"@, ItemKind::Record)
        }),
{
    lemma_standard_item(program, 0, "std.float"@, "is_finite"@, ItemKind::Function);
    lemma_standard_item(program, 0, "std.text"@, "DecodeTextError"@, ItemKind::Enum);
    lemma_standard_item(program, 0, "std.file"@, "File"@, ItemKind::Record);
    lemma_standard_item(program, 0, "std.io"@, "IoError"@, ItemKind::Record);
    lemma_standard_item(program, 0, "std.io"@, "IoErrorKind"@, ItemKind::Enum);
    lemma_standard_item(program, 0, "std.json"@, "Json"@, ItemKind::Enum);
    lemma_standard_item(program, 0, "std.json"@, "JsonError"@, ItemKind::Enum);
    lemma_standard_item(program, 0, "std.log"@, "LogLevel"@, ItemKind::Enum);
    lemma_standard_item(program, 0, "std.path"@, "PathError"@, ItemKind::Enum);
    lemma_standard_item(program, 0, "std.net"@, "Socket"@, ItemKind::Record);
}

/// A marker is accepted exactly if it is a concept without interface, without
/// associated types and without requirements.
pub proof fn law_markers_are_empty(
    s: Survey,
    program: &Program,
    concept: DefId,
    text: &'static str,
)
    ensures
        ({
            let after = s.validate_marker(program, Some(concept), text);
            match program.kind_of(concept) {
                Some(DefinitionKind::Concept { dyn_capable, associated_types, requirements }) => {
                    let empty = !dyn_capable && associated_types.seq().len() == 0
                        && requirements.seq().len() == 0;
                    &&& empty ==> after == s
                    &&& !empty ==> reported(
                        s.names.diagnostics,
                        after.names.diagnostics,
                        "InvalidResourceMarker",
                        program.span_of(concept),
                    )
                },
                _ => after == s,
            }
        }),
        s.validate_marker(program, None, text) == s,
{
    reveal(Survey::validate_marker);
    reveal(Survey::error);
    reveal(Names::report);
    match program.kind_of(concept) {
        Some(DefinitionKind::Concept { dyn_capable, associated_types, requirements }) => {
            crate::chain::lemma_len(associated_types);
            crate::chain::lemma_len(requirements);
        },
        _ => {},
    }
}

/// `Self` mentions itself; a path does not, and a tuple does if one of its
/// elements does.
pub proof fn law_self_leaks(
    program: &Program,
    reference: TypeRefId,
    concept: DefId,
    budget: u32,
    list: Chain<TypeRefId>,
    last: TypeRefId,
)
    requires
        budget > 0,
    ensures
        match at(program.type_refs@, reference.0) {
            Some(found) => match found.kind {
                TypeRefKind::SelfType => program.leaks_self(reference, concept, budget),
                TypeRefKind::Path(_) => !program.leaks_self(reference, concept, budget),
                TypeRefKind::Error => !program.leaks_self(reference, concept, budget),
                TypeRefKind::Tuple(elements) => program.leaks_self(reference, concept, budget)
                    == program.any_leaks(elements, concept, (budget - 1) as u32),
                _ => true,
            },
            None => !program.leaks_self(reference, concept, budget),
        },
        program.any_leaks(list.pushed(last), concept, budget) == (program.any_leaks(
            list,
            concept,
            budget,
        ) || program.leaks_self(last, concept, budget)),
        !program.any_leaks(Chain::Empty, concept, budget),
{
    reveal_with_fuel(Program::leaks_self, 2);
    reveal_with_fuel(Program::any_leaks, 2);
}

/// How many of the parameters mention `Self` where they must not.
pub open spec fn leaking(program: &Program, concept: DefId, params: Chain<ParamId>) -> nat
    decreases params,
{
    match params {
        Chain::Empty => 0,
        Chain::Link(link) => leaking(program, concept, link.rest) + (match at(
            program.params@,
            link.item.0,
        ) {
            Some(found) => if program.leaks_self(found.ty, concept, RESOLUTION_LIMIT) {
                1nat
            } else {
                0nat
            },
            None => 0nat,
        }),
    }
}

proof fn lemma_leaking(
    s: Survey,
    program: &Program,
    concept: DefId,
    requirement: DefId,
    params: Chain<ParamId>,
)
    ensures
        errors(s.report_param_leaks(program, concept, requirement, params)) == errors(s) + leaking(
            program,
            concept,
            params,
        ),
    decreases params,
{
    reveal(Survey::error);
    reveal(Names::report);
    if params is Link {
        lemma_leaking(s, program, concept, requirement, params.without_last());
    }
}

/// A requirement can be called through an interface exactly if it has a
/// receiver, no type parameters of its own, and `Self` only as its receiver or
/// in associated types; each thing that is against it is reported.
pub proof fn law_interface_requirements(
    s: Survey,
    program: &Program,
    concept: DefId,
    requirement: DefId,
    owner: DefId,
    signature: CallableSource,
)
    requires
        program.kind_of(requirement) == Some(DefinitionKind::Method { owner, signature }),
    ensures
        ({
            let after = s.validate_dynamic_requirement(program, concept, requirement);
            let fixed: nat = if signature.receiver == Some(ReceiverKind::Static) {
                1
            } else {
                0
            };
            let generic: nat = if signature.generic_params.seq().len() > 0 {
                1
            } else {
                0
            };
            let returned: nat = match signature.return_ty {
                Some(ty) => if program.leaks_self(ty, concept, RESOLUTION_LIMIT) {
                    1
                } else {
                    0
                },
                None => 0,
            };
            errors(after) == errors(s) + fixed + generic + leaking(
                program,
                concept,
                signature.params,
            ) + returned
        }),
{
    reveal(Survey::validate_dynamic_requirement);
    reveal(Survey::validate_dyn_self_uses);
    reveal(Survey::error);
    reveal(Names::report);
    crate::chain::lemma_len(signature.generic_params);
    let first = if signature.receiver == Some(ReceiverKind::Static) {
        s.text_error(
            "DynStaticRequirement",
            "dyn concept cannot contain a static method",
            program.span_of(requirement),
        )
    } else {
        s
    };
    let second = if signature.generic_params is Link {
        first.text_error(
            "DynGenericMethod",
            "dyn concept method cannot have method-specific type parameters",
            program.span_of(requirement),
        )
    } else {
        first
    };
    assert(errors(first) == errors(s) + if signature.receiver == Some(ReceiverKind::Static) {
        1nat
    } else {
        0nat
    });
    assert(errors(second) == errors(first) + if signature.generic_params is Link {
        1nat
    } else {
        0nat
    });
    lemma_leaking(second, program, concept, requirement, signature.params);
}

/// A pattern of one type matches a value of another if one of them may stand
/// for the other; otherwise it is reported.
pub proof fn law_pattern_types(w: World, cx: &Context, span: Span, actual: TyId, expected: TyId)
    ensures
        ({
            let after = w.expect_compatible(cx, span, actual, expected);
            let akin = may_stand(w, cx, actual, expected) || may_stand(w, cx, expected, actual);
            &&& akin ==> after == w
            &&& !akin ==> reported(
                w.st.diagnostics,
                after.st.diagnostics,
                "TypeMismatch",
                span,
            )
        }),
{
    reveal(World::expect_compatible);
    reveal(World::report);
}

/// A pattern of a variant must have as many parts as the variant's payload.
pub proof fn law_pattern_arity(
    w: World,
    cx: &Context,
    p: Pattern,
    variant: crate::patterns::PatternVariant,
    payload: Chain<Pattern>,
    expected: TyId,
)
    ensures
        ({
            let (after, parts) = w.enter_variant(cx, p, variant, payload, expected);
            &&& parts.seq().len() == payload.seq().len() ==> after.st.diagnostics
                == w.st.diagnostics
            &&& parts.seq().len() != payload.seq().len() ==> reported(
                w.st.diagnostics,
                after.st.diagnostics,
                "TypeMismatch",
                p.span,
            )
        }),
{
    reveal(World::enter_variant);
    reveal(World::set_pattern_resolution);
    reveal(World::report);
    crate::chain::lemma_len(w.enter_variant(cx, p, variant, payload, expected).1);
    crate::chain::lemma_len(payload);
}

/// A pattern drops what it does not bind: a value that must be scoped, or that
/// may carry a task outside a contract, cannot be dropped.
pub proof fn law_pattern_drops(w: World, cx: &Context, span: Span, expected: TyId)
    ensures
        ({
            let after = w.discard_pattern(cx, span, expected);
            let (asked, must) = w.has_must_scope_obligation(cx, expected);
            let (again, task) = asked.may_have_task_obligation(cx, expected);
            let ordinary = w.st.contract == crate::state::ContractMode::Ordinary;
            &&& !must && !(ordinary && task) ==> after.st == w.st
            &&& must && !ordinary ==> reported(
                w.st.diagnostics,
                after.st.diagnostics,
                "MustScopeRequiresScoped",
                span,
            )
            &&& !must && ordinary && task ==> reported(
                w.st.diagnostics,
                after.st.diagnostics,
                "TaskPatternDiscard",
                span,
            )
        }),
{
    reveal(World::discard_pattern);
    reveal(World::carries);
    reveal(World::report);
}

} // verus!
