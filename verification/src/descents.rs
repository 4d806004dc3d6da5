//! What holds of what declarations lead to: what a type holds by value, what
//! associated types are bound to, what a contract speaks of, and how types and
//! numbers are written.

use vstd::prelude::*;

use crate::associated::{
    any_has_cycle, binding_of, has_cycle, has_key, is_cyclic, key_of, projections_in,
    ProjectionBinding, ProjectionKey, PROJECTION_LIMIT,
};
use crate::chain::Chain;
use crate::def_map::{duplicates_reported, Binding};
use crate::diagnostics::{reported, Diagnostic};
use crate::entry::{argument_terms, contract_owner, implemented_requirement};
use crate::hir::{DefinitionKind, Path, Program, Segment};
use crate::ids::{DefId, GenericParamId, ModuleId, ParamId, TyId};
use crate::lookup::type_named;
use crate::module_graph::compiler_known;
use crate::patterns::qualifier_matches;
use crate::recursive::{dependencies, holds, is_cycle, leads, list_dependencies, list_holds};
use crate::rendering::{decimal, type_text, type_texts};
use crate::resolve::{Names, Sources};
use crate::semantics::{ConformanceSemantics, Signature};
use crate::state::Context;
use crate::survey::Survey;
use crate::symbolic::{root_term, ProofRoot};
use crate::table::has_id;
use crate::ty::{all_below, ty_data, types_wf, AssociatedTypeBinding, BuiltinType, TyData};

verus! {

/// A type holds what it is made of by value: an option, an outcome, a result
/// and a tuple their parts, and a declared type itself and its arguments. What a
/// list, a map, a task or an interface leads to it does not hold.
pub proof fn law_parts_are_held(
    program: &Program,
    types: Seq<TyData>,
    ty: TyId,
    id: u32,
)
    requires
        types_wf(types),
    ensures
        ({
            let held = has_id(dependencies(program, types, ty, Chain::Empty), id);
            let of = |part: TyId| has_id(dependencies(program, types, part, Chain::Empty), id);
            match ty_data(types, ty) {
                TyData::Option(part) => held == of(part),
                TyData::TaskOutcome(part) => held == of(part),
                TyData::Result { ok, error } => held == (of(ok) || of(error)),
                TyData::Tuple(parts) => parts is Empty ==> !held,
                TyData::Nominal { definition, arguments } => definition.0 == id
                    && program.declares_type(id) ==> held,
                _ => !held,
            }
        }),
        (match ty_data(types, ty) {
            TyData::Nominal { definition, arguments } => arguments is Empty ==> has_id(
                dependencies(program, types, ty, Chain::Empty),
                id,
            ) == (definition.0 == id && program.declares_type(id)),
            _ => true,
        }),
{
    reveal_with_fuel(holds, 2);
    reveal_with_fuel(list_holds, 2);
    reveal_with_fuel(dependencies, 2);
    reveal_with_fuel(list_dependencies, 2);
    crate::recursive::law_dependencies(program, types, ty, Chain::Empty, id);
    match ty_data(types, ty) {
        TyData::Option(part) => {
            crate::recursive::law_dependencies(program, types, part, Chain::Empty, id);
        },
        TyData::TaskOutcome(part) => {
            crate::recursive::law_dependencies(program, types, part, Chain::Empty, id);
        },
        TyData::Result { ok, error } => {
            crate::recursive::law_dependencies(program, types, ok, Chain::Empty, id);
            crate::recursive::law_dependencies(program, types, error, Chain::Empty, id);
        },
        _ => {},
    }
}

/// A record holds what its fields hold, and an enumeration what the payloads of
/// its variants hold.
pub proof fn law_members_are_held(
    survey: Survey,
    program: &Program,
    members: Chain<DefId>,
    last: DefId,
    payload: Chain<TyId>,
    part: TyId,
    known: Chain<u32>,
    id: u32,
)
    requires
        types_wf(survey.names.types),
    ensures
        ({
            let of = |part: TyId|
                has_id(dependencies(program, survey.names.types, part, Chain::Empty), id);
            let before = has_id(survey.field_dependencies(program, members), id);
            has_id(survey.field_dependencies(program, members.pushed(last)), id) == match
                survey.signature_of(last) {
                Some(Signature::Field { owner: _, ty }) => before || of(ty),
                _ => before,
            }
        }),
        !has_id(survey.field_dependencies(program, Chain::Empty), id),
        !has_id(survey.variant_dependencies(program, Chain::Empty), id),
        survey.signature_of(last) !is Some || survey.signature_of(last)->0 !is Variant
            ==> survey.variant_dependencies(program, members.pushed(last))
            == survey.variant_dependencies(program, members),
        (match survey.signature_of(last) {
            Some(Signature::Variant { owner: _, payload: held }) => has_id(
                survey.variant_dependencies(program, members.pushed(last)),
                id,
            ) == (has_id(survey.variant_dependencies(program, members), id) || has_id(
                survey.payload_dependencies(program, held, Chain::Empty),
                id,
            )),
            _ => true,
        }),
        has_id(survey.payload_dependencies(program, payload.pushed(part), known), id) == (has_id(
            survey.payload_dependencies(program, payload, known),
            id,
        ) || has_id(dependencies(program, survey.names.types, part, Chain::Empty), id)),
{
    let types = survey.names.types;
    reveal_with_fuel(Survey::field_dependencies, 2);
    reveal_with_fuel(Survey::variant_dependencies, 2);
    reveal_with_fuel(Survey::payload_dependencies, 2);
    match survey.signature_of(last) {
        Some(Signature::Field { owner: _, ty }) => {
            crate::recursive::law_dependencies(program, types, ty, Chain::Empty, id);
            crate::recursive::law_dependencies(
                program,
                types,
                ty,
                survey.field_dependencies(program, members),
                id,
            );
        },
        Some(Signature::Variant { owner: _, payload: held }) => {
            lemma_payload_keeps(
                survey,
                program,
                held,
                survey.variant_dependencies(program, members),
                id,
            );
        },
        _ => {},
    }
    crate::recursive::law_dependencies(program, types, part, Chain::Empty, id);
    crate::recursive::law_dependencies(
        program,
        types,
        part,
        survey.payload_dependencies(program, payload, known),
        id,
    );
}

proof fn lemma_payload_keeps(
    survey: Survey,
    program: &Program,
    payload: Chain<TyId>,
    known: Chain<u32>,
    id: u32,
)
    requires
        types_wf(survey.names.types),
    ensures
        has_id(survey.payload_dependencies(program, payload, known), id) == (has_id(known, id)
            || has_id(survey.payload_dependencies(program, payload, Chain::Empty), id)),
    decreases payload,
{
    reveal_with_fuel(Survey::payload_dependencies, 2);
    if payload is Link {
        let rest = payload.without_last();
        let last = payload->0.item;
        lemma_payload_keeps(survey, program, rest, known, id);
        crate::recursive::law_dependencies(
            program,
            survey.names.types,
            last,
            survey.payload_dependencies(program, rest, known),
            id,
        );
        crate::recursive::law_dependencies(
            program,
            survey.names.types,
            last,
            survey.payload_dependencies(program, rest, Chain::Empty),
            id,
        );
    }
}

/// Every group of types that hold each other is reported once, at its first
/// member, and no other type is.
pub proof fn law_cycles_are_reported_once(
    survey: Survey,
    program: &Program,
    graph: Seq<Chain<u32>>,
    first: u32,
)
    requires
        first < u32::MAX,
    ensures
        ({
            let before = survey.value_cycles_reported(program, graph, first as nat);
            let after = survey.value_cycles_reported(program, graph, (first + 1) as nat);
            let leads_cycle = program.declares_type(first) && leads(graph, first) && is_cycle(
                graph,
                first,
            );
            &&& leads_cycle ==> reported(
                before.names.diagnostics,
                after.names.diagnostics,
                "RecursiveValueType",
                program.span_of(DefId(first)),
            )
            &&& !leads_cycle ==> after == before
        }),
        survey.value_cycles_reported(program, graph, 0) == survey,
{
    reveal_with_fuel(Survey::value_cycles_reported, 2);
    reveal(Survey::report);
    reveal(Names::report);
}

/// An associated type that is bound to itself, or to a type that names it, is
/// in a cycle; one that nothing binds is in none, and neither is one that is
/// bound to a type without associated types in it.
pub proof fn law_bound_cycles(
    list: Chain<ProjectionBinding>,
    types: Seq<TyData>,
    key: ProjectionKey,
    active: Chain<ProjectionKey>,
    depth: u16,
)
    ensures
        has_key(active, key) ==> has_cycle(list, types, key, active, depth),
        depth >= PROJECTION_LIMIT ==> has_cycle(list, types, key, active, depth),
        depth < PROJECTION_LIMIT && !has_key(active, key) && binding_of(list, key) is None
            ==> !has_cycle(list, types, key, active, depth),
        (match binding_of(list, key) {
            None => true,
            Some(binding) => {
                &&& depth < PROJECTION_LIMIT && !has_key(active, key) && ty_data(types, binding.ty)
                    is Builtin ==> !has_cycle(list, types, key, active, depth)
                &&& ty_data(types, binding.ty) == (TyData::Projection {
                    self_ty: key.self_ty,
                    concept: key.concept,
                    associated_type: key.associated_type,
                }) && ty_data(types, key.self_ty) is Builtin ==> has_cycle(
                    list,
                    types,
                    key,
                    active,
                    depth,
                )
            },
        }),
{
    reveal_with_fuel(has_cycle, 3);
    reveal_with_fuel(any_has_cycle, 3);
    reveal_with_fuel(projections_in, 3);
    reveal_with_fuel(has_key, 2);
    if depth < PROJECTION_LIMIT {
        match binding_of(list, key) {
            Some(binding) => {
                let found = projections_in(types, binding.ty, Chain::Empty, Chain::Empty, 0).0;
                if ty_data(types, binding.ty) is Builtin {
                    assert(found is Empty);
                } else if ty_data(types, binding.ty) == (TyData::Projection {
                    self_ty: key.self_ty,
                    concept: key.concept,
                    associated_type: key.associated_type,
                }) && ty_data(types, key.self_ty) is Builtin {
                    assert(found == Chain::Empty.pushed(key));
                    assert(has_key(active.pushed(key), key));
                }
            },
            None => {},
        }
    }
}

/// A conformance that is in a cycle is reported, and one that is in none is
/// not.
pub proof fn law_bound_cycles_are_reported(
    survey: Survey,
    cx: &Sources,
    judge: Survey,
    list: Chain<ProjectionBinding>,
    definition: DefId,
)
    ensures
        ({
            let before = survey.cycles_reported(cx, judge, list, definition.0 as nat);
            let after = survey.cycles_reported(cx, judge, list, (definition.0 + 1) as nat);
            &&& judge.cyclic(list, definition) ==> reported(
                before.names.diagnostics,
                after.names.diagnostics,
                "ConformanceResolutionCycle",
                cx.program.span_of(definition),
            )
            &&& !judge.cyclic(list, definition) ==> after == before
        }),
        survey.cycles_reported(cx, judge, list, 0) == survey,
        judge.st.conformances.lookup(definition.0) is None ==> !judge.cyclic(list, definition),
{
    reveal_with_fuel(Survey::cycles_reported, 2);
    reveal(Survey::report);
    reveal(Names::report);
    reveal(Survey::error);
}

/// A conformance is in a cycle exactly if one of its own bindings is.
pub proof fn law_conformances_in_cycles(
    list: Chain<ProjectionBinding>,
    types: Seq<TyData>,
    definition: DefId,
    conformance: ConformanceSemantics,
    bindings: Chain<AssociatedTypeBinding>,
    last: AssociatedTypeBinding,
)
    ensures
        ({
            let key = key_of(conformance, last);
            let before = is_cyclic(list, types, definition, conformance, bindings);
            let after = is_cyclic(list, types, definition, conformance, bindings.pushed(last));
            &&& before ==> after
            &&& after && !before ==> has_cycle(list, types, key, Chain::Empty, 0) && binding_of(
                list,
                key,
            ) is Some && binding_of(list, key)->0.definition == definition
            &&& has_cycle(list, types, key, Chain::Empty, 0) && binding_of(list, key) is Some
                && binding_of(list, key)->0.definition == definition ==> after
        }),
        !is_cyclic(list, types, definition, conformance, Chain::Empty),
{
    reveal_with_fuel(is_cyclic, 2);
}

/// The parameters of a contract stand for those of the implementation, one by
/// one from the first.
pub proof fn law_contract_parameters(
    contract: Chain<(ParamId, TyId)>,
    implementation: Chain<(ParamId, TyId)>,
    declared: (ParamId, TyId),
    given: (ParamId, TyId),
    at_entry: bool,
)
    requires
        contract.spec_len() == implementation.spec_len(),
    ensures
        argument_terms(contract.pushed(declared), implementation.pushed(given), at_entry).seq()
            == argument_terms(contract, implementation, at_entry).seq().push(
            (
                declared.0,
                root_term(
                    if at_entry {
                        ProofRoot::OldParam(given.0.0)
                    } else {
                        ProofRoot::Param(given.0.0)
                    },
                ),
            ),
        ),
        argument_terms(contract.pushed(declared), implementation, at_entry) == argument_terms(
            contract,
            implementation,
            at_entry,
        ),
        argument_terms(contract, implementation.pushed(given), at_entry) == argument_terms(
            contract,
            implementation,
            at_entry,
        ),
{
    reveal_with_fuel(argument_terms, 2);
    reveal_with_fuel(Chain::<_>::spec_len, 2);
    reveal_with_fuel(Chain::<_>::seq, 2);
}

/// The requirement that a method implements is one that it is entered for, and
/// there is one exactly if it is entered.
pub proof fn law_implemented_requirements(
    methods: Chain<(DefId, DefId)>,
    implementation: DefId,
    requirement: DefId,
)
    ensures
        implemented_requirement(methods, implementation) == Some(requirement)
            ==> methods.seq().contains((requirement, implementation)),
        methods.seq().contains((requirement, implementation)) ==> implemented_requirement(
            methods,
            implementation,
        ) is Some,
    decreases methods,
{
    if methods is Link {
        let rest = methods.without_last();
        let last = methods->0.item;
        law_implemented_requirements(rest, implementation, requirement);
        let all = methods.seq();
        assert(all == rest.seq().push(last));
        if rest.seq().contains((requirement, implementation)) {
            let at = choose|at: int|
                0 <= at < rest.seq().len() && rest.seq()[at] == (requirement, implementation);
            assert(all[at] == (requirement, implementation));
        }
        if last == (requirement, implementation) {
            assert(all[all.len() - 1] == last);
        }
    }
}

/// A body is held to its own contracts, and one that implements a requirement
/// to those of the requirement.
pub proof fn law_contract_owners(cx: &Context, container: DefId, requirement: DefId)
    requires
        cx.program.kind_of(cx.environment.owner) matches Some(
            DefinitionKind::Method { owner, signature },
        ) && owner == container,
        cx.program.kind_of(container) matches Some(kind) && kind is Conformance,
        cx.conformances.lookup(container.0) matches Some(found) && contract_owner(cx)
            != cx.environment.owner && contract_owner(cx) == requirement,
    ensures
        cx.conformances.lookup(container.0)->0.methods.seq().contains(
            (requirement, cx.environment.owner),
        ),
{
    let found = cx.conformances.lookup(container.0)->0;
    law_implemented_requirements(found.methods, cx.environment.owner, requirement);
}

/// A body that implements nothing is held to its own contracts.
pub proof fn law_own_contracts(cx: &Context)
    ensures
        (match cx.program.kind_of(cx.environment.owner) {
            Some(DefinitionKind::Method { owner, signature: _ }) => cx.conformances.lookup(
                owner.0,
            ) is None,
            _ => true,
        }) ==> contract_owner(cx) == cx.environment.owner,
{
}

/// A number is written in decimal digits: read back they give the number, and
/// only zero starts with a zero.
pub proof fn law_decimals_read_back(value: nat)
    ensures
        read_decimal(decimal(value)) == value,
        decimal(value).len() > 0,
        value > 0 ==> decimal(value)[0] != '0',
    decreases value,
{
    reveal_with_fuel(read_decimal, 2);
    if value < 10 {
        assert(decimal(value).drop_last() =~= Seq::<char>::empty());
        assert(read_decimal(Seq::<char>::empty()) == 0);
    } else {
        law_decimals_read_back(value / 10);
        assert(decimal(value).drop_last() =~= decimal(value / 10));
        assert(decimal(value)[0] == decimal(value / 10)[0]);
    }
}

/// The number that decimal digits stand for.
pub open spec fn read_decimal(text: Seq<char>) -> int
    decreases text.len(),
{
    if text.len() == 0 {
        0
    } else {
        10 * read_decimal(text.drop_last()) + (text.last() as int - '0' as int)
    }
}

/// A made type is written by its constructor and, in brackets, its parts.
pub proof fn law_written_type_names(program: &Program, types: Seq<TyData>, ty: TyId)
    requires
        types_wf(types),
    ensures
        ({
            let text = type_text(program, types, ty);
            let of = |part: TyId| type_text(program, types, part);
            match ty_data(types, ty) {
                TyData::Error => text == "<error>"@,
                TyData::Never => text == "Never"@,
                TyData::Builtin(BuiltinType::Bool) => text == "Bool"@,
                TyData::Builtin(BuiltinType::Int) => text == "Int"@,
                TyData::Builtin(BuiltinType::Text) => text == "Text"@,
                TyData::Builtin(BuiltinType::Unit) => text == "Unit"@,
                TyData::List(part) => text == "List["@ + of(part) + "]"@,
                TyData::TextMap(part) => text == "TextMap["@ + of(part) + "]"@,
                TyData::Option(part) => text == "Option["@ + of(part) + "]"@,
                TyData::Task(part) => text == "Task["@ + of(part) + "]"@,
                TyData::TaskOutcome(part) => text == "TaskOutcome["@ + of(part) + "]"@,
                TyData::Result { ok, error } => text == "Result["@ + of(ok) + ", "@ + of(error)
                    + "]"@,
                TyData::SelfType(_) => text == "Self"@,
                TyData::Nominal { definition, arguments } => arguments is Empty ==> (
                match program.name_of(definition) {
                    Some(name) => text == name@,
                    None => text == "<anonymous>"@,
                }),
                _ => true,
            }
        }),
{
}

/// The types of a list are written one behind the other with commas between
/// them.
pub proof fn law_written_type_lists(
    program: &Program,
    types: Seq<TyData>,
    list: Chain<TyId>,
    last: TyId,
    limit: u32,
)
    requires
        types_wf(types),
        all_below(list.pushed(last), limit as int),
    ensures
        type_texts(program, types, list.pushed(last), limit) == if list is Empty {
            type_text(program, types, last)
        } else {
            type_texts(program, types, list, limit) + ", "@ + type_text(program, types, last)
        },
        type_texts(program, types, Chain::Empty, limit) == Seq::<char>::empty(),
{
    reveal_with_fuel(type_texts, 2);
    reveal_with_fuel(all_below, 2);
}

/// A type in front of a variant in a pattern has to be the type of the matched
/// value; without one any variant of it will do.
pub proof fn law_pattern_qualifiers(cx: &Context, data: TyData, path: Path)
    ensures
        qualifier_matches(cx, data, None),
        ({
            let named = |name: Seq<char>| match path.single() {
                Some(segment) => segment.name@ == name,
                None => false,
            };
            qualifier_matches(cx, data, Some(path)) == match data {
                TyData::Option(_) => named("Option"@),
                TyData::Result { ok: _, error: _ } => named("Result"@),
                TyData::TaskOutcome(_) => named("TaskOutcome"@),
                TyData::Nominal { definition, arguments: _ } => type_named(cx, path) == Some(
                    definition,
                ),
                _ => false,
            }
        }),
{
}

/// The functions that the compiler provides are those of the standard modules
/// for time, files, connections, documents and logs.
pub proof fn law_provided_functions(path: Chain<Segment>)
    ensures
        compiler_known(path) ==> path.seq().len() == 3 && path.seq()[0].name@ == "std"@,
        path.seq().len() == 3 && path.seq()[0].name@ == "std"@ ==> compiler_known(path) == ({
            let group = path.seq()[1].name@;
            let name = path.seq()[2].name@;
            ||| group == "time"@ && name == "milliseconds"@
            ||| group == "log"@ && name == "write"@
            ||| group == "json"@ && name == "format_json"@
            ||| group == "net"@ && (name == "connect"@ || name == "try_connect"@)
            ||| group == "file"@ && (name == "open_read"@ || name == "create"@ || name
                == "open_read_path"@ || name == "create_path"@ || name == "try_open_read"@ || name
                == "try_create"@ || name == "try_open_read_path"@ || name == "try_create_path"@)
        }),
{
    reveal_with_fuel(Chain::<_>::seq, 5);
    if path is Link {
        let second = path.without_last();
        assert(path.seq() == second.seq().push(path->0.item));
        if second is Link {
            let first = second.without_last();
            assert(second.seq() == first.seq().push(second->0.item));
            if first is Link {
                assert(first.seq() == first.without_last().seq().push(first->0.item));
            }
        }
    }
}

/// A name with several definitions in a module is reported, and one with a
/// single definition is not.
pub proof fn law_duplicates_are_reported(
    program: &Program,
    module: ModuleId,
    entries: Chain<(String, Binding)>,
    last: (String, Binding),
    so_far: Chain<Diagnostic>,
)
    ensures
        ({
            let before = duplicates_reported(program, module, entries, so_far);
            let after = duplicates_reported(program, module, entries.pushed(last), so_far);
            match last.1 {
                Binding::Unique(_) => after == before,
                Binding::Duplicate(candidates) => reported(
                    before,
                    after,
                    "DuplicateDeclaration",
                    program.span_of(
                        crate::def_map::first_definition(program.source_sorted(candidates)),
                    ),
                ),
            }
        }),
        duplicates_reported(program, module, Chain::Empty, so_far) == so_far,
{
    reveal_with_fuel(duplicates_reported, 2);
}

/// In an implementation `Self` is its target, in a concept it is the type that
/// implements it, and elsewhere it is nothing.
pub proof fn law_self_types(
    names: Names,
    cx: &Sources,
    definition: DefId,
    generic_params: Chain<GenericParamId>,
)
    ensures
        ({
            let (after, ty) = names.self_type_for(cx, definition, generic_params);
            match cx.program.owner_of(definition) {
                None => after == names && ty is None,
                Some(owner) => match cx.program.kind_of(owner) {
                    Some(kind) => if kind is Conformance {
                        ty is Some
                    } else if kind is Concept {
                        (after, ty) == ({
                            let (named, made) = names.intern(TyData::SelfType(owner));
                            (named, Some(made))
                        })
                    } else {
                        kind is InherentImpl || after == names && ty is None
                    },
                    None => after == names && ty is None,
                },
            }
        }),
{
    reveal(Names::self_type_for);
}

} // verus!
