//! Which types written types stand for, and what declarations declare.

use vstd::prelude::*;

use crate::chain::{lemma_len, Chain};
use crate::diagnostics::reported;
use crate::growth::lemma_interned;
use crate::hir::{
    at, CallableSource, DefinitionKind, Path, Program, ReceiverKind, Resolved, Segment,
};
use crate::ids::{DefId, GenericParamId, ParamId, Span, TyId, TypeRefId};
use crate::rendering::builtin_name;
use crate::resolve::{
    constructed,
    constructor_of,
    generic_named,
    Constructor,
    Names,
    Sources,
    TypeContext,
};
use crate::semantics::{CallableSignature, Signature};
use crate::survey::Survey;
use crate::table::has_id;
use crate::ty::{
    all_below, builtin_ty, error_ty, first_types, law_intern, parts_below, ty_data, BuiltinType,
    ConceptInstance, Mutability, TyData,
};
use crate::unify::builtin_named;

verus! {

/// The table has room for this many more types.
pub open spec fn room(n: Names, count: int) -> bool {
    n.types.len() + count <= u32::MAX
}

/// `ty` has this shape in the table.
pub open spec fn shaped(n: Names, ty: TyId, data: TyData) -> bool {
    ty.0 < n.types.len() && n.types[ty.0 as int] == data
}

proof fn lemma_made(n: Names, data: TyData)
    requires
        n.wf(),
        room(n, 1),
        parts_below(data, n.types.len() as int),
    ensures
        ({
            let (after, ty) = n.intern(data);
            &&& after.wf()
            &&& shaped(after, ty, data)
            &&& after.diagnostics == n.diagnostics
            &&& n.types.len() <= after.types.len() <= n.types.len() + 1
            &&& forall|old: TyId|
                old.0 < n.types.len() ==> #[trigger] ty_data(after.types, old) == ty_data(
                    n.types,
                    old,
                )
        }),
{
    law_intern(n.types, data);
    lemma_interned(n.types, data);
}

/// A written type stands for one type: resolving it again gives the same type,
/// makes no other and reports nothing.
pub proof fn law_written_types_are_resolved_once(
    n: Names,
    cx: &Sources,
    reference: TypeRefId,
    context: TypeContext,
    budget: u32,
    other: TypeContext,
    more: u32,
)
    requires
        budget > 0,
        reference.0 < cx.program.type_refs@.len(),
    ensures
        ({
            let (after, ty) = n.resolve_type_ref(cx, reference, context, budget);
            after.resolve_type_ref(cx, reference, other, more) == (after, ty)
        }),
{
    reveal(Names::record);
}

/// The path is the one word `name`.
pub open spec fn is_word(path: Path, name: Seq<char>) -> bool {
    match path.single() {
        Some(segment) => segment.name@ == name,
        None => false,
    }
}

/// The constructors of the language are `Option`, `Result`, `List`, `TextMap`,
/// `Task` and `TaskOutcome`.
pub proof fn law_constructor_names(path: Path)
    ensures
        constructor_of(path) == Some(Constructor::Optional) <==> is_word(path, "Option"@),
        constructor_of(path) == Some(Constructor::Fallible) <==> is_word(path, "Result"@),
        constructor_of(path) == Some(Constructor::List) <==> is_word(path, "List"@),
        constructor_of(path) == Some(Constructor::TextMap) <==> is_word(path, "TextMap"@),
        constructor_of(path) == Some(Constructor::Task) <==> is_word(path, "Task"@),
        constructor_of(path) == Some(Constructor::TaskOutcome) <==> is_word(path, "TaskOutcome"@),
{
    reveal_strlit("Option");
    reveal_strlit("Result");
    reveal_strlit("List");
    reveal_strlit("TextMap");
    reveal_strlit("Task");
    reveal_strlit("TaskOutcome");
    assert("Option"@.len() == 6 && "Result"@.len() == 6 && "List"@.len() == 4);
    assert("TextMap"@.len() == 7 && "Task"@.len() == 4 && "TaskOutcome"@.len() == 11);
    assert("Option"@[0] == 'O' && "Result"@[0] == 'R' && "List"@[0] == 'L' && "Task"@[0] == 'T');
}

/// The name of each builtin type stands for that type.
pub proof fn law_builtin_names(builtin: BuiltinType)
    ensures
        builtin_named(builtin_name(builtin)) == Some(builtin),
        builtin_named("Bool"@) == Some(BuiltinType::Bool),
        builtin_named("Int"@) == Some(BuiltinType::Int),
        builtin_named("Float"@) == Some(BuiltinType::Float),
        builtin_named("Text"@) == Some(BuiltinType::Text),
        builtin_named("Unit"@) == Some(BuiltinType::Unit),
{
    reveal_strlit("Bool");
    reveal_strlit("Int");
    reveal_strlit("Float");
    reveal_strlit("Text");
    reveal_strlit("Bytes");
    reveal_strlit("Path");
    reveal_strlit("Unit");
    reveal_strlit("ConstraintError");
    reveal_strlit("ContractFault");
    reveal_strlit("TaskFault");
    reveal_strlit("Duration");
    assert("Bool"@.len() == 4 && "Int"@.len() == 3 && "Float"@.len() == 5 && "Text"@.len() == 4);
    assert("Bytes"@.len() == 5 && "Path"@.len() == 4 && "Unit"@.len() == 4);
    assert("ConstraintError"@.len() == 15 && "ContractFault"@.len() == 13);
    assert("TaskFault"@.len() == 9 && "Duration"@.len() == 8);
    assert("Bool"@[0] == 'B' && "Text"@[0] == 'T' && "Path"@[0] == 'P' && "Unit"@[0] == 'U');
    assert("Float"@[0] == 'F' && "Bytes"@[0] == 'B');
}

/// A constructor of the language applied to as many types as it takes is the
/// type that it makes of them, in their order; with any other number of types
/// it is reported.
pub proof fn law_constructed_types(
    n: Names,
    cx: &Sources,
    path: Path,
    types: Chain<TyId>,
    reference: TypeRefId,
    constructor: Constructor,
)
    requires
        n.wf(),
        room(n, 1),
        all_below(types, n.types.len() as int),
        constructor_of(path) == Some(constructor),
    ensures
        ({
            let (after, ty) = n.apply_constructor(cx, path, types, reference);
            let taken: nat = if constructor == Constructor::Fallible {
                2
            } else {
                1
            };
            &&& types.seq().len() == taken ==> after.diagnostics == n.diagnostics
                && ty.0 < after.types.len() && match (constructor, after.types[ty.0 as int]) {
                (Constructor::Optional, TyData::Option(part)) => part == types.seq()[0],
                (Constructor::List, TyData::List(part)) => part == types.seq()[0],
                (Constructor::TextMap, TyData::TextMap(part)) => part == types.seq()[0],
                (Constructor::Task, TyData::Task(part)) => part == types.seq()[0],
                (Constructor::TaskOutcome, TyData::TaskOutcome(part)) => part == types.seq()[0],
                (Constructor::Fallible, TyData::Result { ok, error }) => ok == types.seq()[0]
                    && error == types.seq()[1],
                _ => false,
            }
            &&& types.seq().len() != taken ==> ty == error_ty() && reported(
                n.diagnostics,
                after.diagnostics,
                "TypeMismatch",
                cx.program.type_span_of(reference),
            )
        }),
{
    reveal(Names::apply_constructor);
    reveal(Names::report_arity);
    reveal(Names::report);
    reveal_with_fuel(all_below, 4);
    reveal_with_fuel(Chain::<_>::seq, 4);
    lemma_len(types);
    match constructed(constructor, types) {
        Some(data) => lemma_made(n, data),
        None => {},
    }
}

/// A declared type applied to types is that type of them if it has as many
/// parameters, and reported otherwise.
pub proof fn law_applied_types(
    n: Names,
    cx: &Sources,
    path: Path,
    types: Chain<TyId>,
    reference: TypeRefId,
    definition: DefId,
)
    requires
        n.wf(),
        room(n, 1),
        all_below(types, n.types.len() as int),
        constructor_of(path) is None,
        n.type_definition(cx, path) == (n, Some(definition)),
    ensures
        ({
            let (after, ty) = n.apply_constructor(cx, path, types, reference);
            let fits = cx.program.type_params_of(definition).seq().len() == types.seq().len();
            &&& fits ==> after.diagnostics == n.diagnostics && shaped(
                after,
                ty,
                TyData::Nominal { definition, arguments: types },
            )
            &&& !fits ==> ty == error_ty() && reported(
                n.diagnostics,
                after.diagnostics,
                "TypeMismatch",
                cx.program.type_span_of(reference),
            )
        }),
{
    reveal(Names::apply_constructor);
    reveal(Names::report_arity);
    reveal(Names::report);
    lemma_len(types);
    lemma_len(cx.program.type_params_of(definition));
    lemma_made(n, TyData::Nominal { definition, arguments: types });
}

/// A word stands for the generic parameter of that name if there is one, and
/// otherwise for the builtin type of that name.
pub proof fn law_words(n: Names, cx: &Sources, path: Path, context: TypeContext, word: Segment)
    requires
        n.wf(),
        room(n, 1),
        path.single() == Some(word),
    ensures
        ({
            let (after, ty) = n.plain_path(cx, path, context);
            match generic_named(cx.program, context.generic_params, word.name@) {
                Some(parameter) => shaped(after, ty, TyData::Param(parameter))
                    && after.diagnostics == n.diagnostics,
                None => match builtin_named(word.name@) {
                    Some(builtin) => after == n && shaped(after, ty, TyData::Builtin(builtin)),
                    None => true,
                },
            }
        }),
{
    reveal(Names::plain_path);
    match generic_named(cx.program, context.generic_params, word.name@) {
        Some(parameter) => lemma_made(n, TyData::Param(parameter)),
        None => match builtin_named(word.name@) {
            Some(builtin) => {
                assert(n.types[builtin_ty(builtin).0 as int]
                    == first_types()[builtin_ty(builtin).0 as int]);
            },
            None => {},
        },
    }
}

/// A generic parameter with a name is one of those that are in scope, and has
/// that name; there is none only if none of them has.
pub proof fn law_generic_names(
    program: &Program,
    parameters: Chain<GenericParamId>,
    name: Seq<char>,
)
    ensures
        match generic_named(program, parameters, name) {
            Some(found) => parameters.seq().contains(found) && match at(
                program.generic_params@,
                found.0,
            ) {
                Some(declared) => declared.name@ == name,
                None => false,
            },
            None => forall|i: int|
                0 <= i < parameters.seq().len() ==> match at(
                    program.generic_params@,
                    (#[trigger] parameters.seq()[i]).0,
                ) {
                    Some(declared) => declared.name@ != name,
                    None => true,
                },
        },
    decreases parameters,
{
    if parameters is Link {
        let rest = parameters.without_last();
        let last = parameters->0.item;
        law_generic_names(program, rest, name);
        assert(parameters.seq() == rest.seq().push(last));
        assert(parameters.seq()[rest.seq().len() as int] == last);
        match generic_named(program, rest, name) {
            Some(found) => {
                let i = choose|i: int| 0 <= i < rest.seq().len() && rest.seq()[i] == found;
                assert(parameters.seq()[i] == found);
            },
            None => {
                assert forall|i: int| 0 <= i < rest.seq().len() implies rest.seq()[i]
                    == #[trigger] parameters.seq()[i] by {}
            },
        }
    }
}

/// A path that names a declared type without parameters stands for it; one with
/// parameters needs them written, and a path that names no type is reported.
pub proof fn law_declared_names(n: Names, cx: &Sources, path: Path)
    requires
        n.wf(),
        room(n, 1),
    ensures
        ({
            let (after, ty) = n.defined_path(cx, path);
            match path.ty {
                Resolved::Found(definition) => if cx.program.type_params_of(
                    definition,
                ).seq().len() == 0 {
                    after.diagnostics == n.diagnostics && shaped(
                        after,
                        ty,
                        TyData::Nominal { definition, arguments: Chain::Empty },
                    )
                } else {
                    ty == error_ty() && reported(
                        n.diagnostics,
                        after.diagnostics,
                        "CannotInferType",
                        path.last_span(),
                    )
                },
                Resolved::Missing => ty == error_ty() && reported(
                    n.diagnostics,
                    after.diagnostics,
                    "UnknownName",
                    path.last_span(),
                ),
                Resolved::Duplicate => ty == error_ty() && reported(
                    n.diagnostics,
                    after.diagnostics,
                    "DuplicateDeclaration",
                    path.last_span(),
                ),
                Resolved::Private => ty == error_ty() && reported(
                    n.diagnostics,
                    after.diagnostics,
                    "NameNotVisible",
                    path.last_span(),
                ),
                Resolved::UnknownModule(_) => ty == error_ty() && reported(
                    n.diagnostics,
                    after.diagnostics,
                    "UnknownName",
                    path.last_span(),
                ),
            }
        }),
{
    reveal(Names::defined_path);
    reveal(Names::report_unresolved);
    reveal(Names::report);
    match path.ty {
        Resolved::Found(definition) => {
            lemma_len(cx.program.type_params_of(definition));
            lemma_made(n, TyData::Nominal { definition, arguments: Chain::Empty });
        },
        _ => {},
    }
}

/// `Self` stands for the type that encloses it; where none does, that is
/// reported.
pub proof fn law_enclosing_type(n: Names, cx: &Sources, reference: TypeRefId, context: TypeContext)
    ensures
        ({
            let (after, ty) = n.resolve_self(cx, reference, context);
            match context.self_ty {
                Some(found) => after == n && ty == found,
                None => ty == error_ty() && reported(
                    n.diagnostics,
                    after.diagnostics,
                    "UnknownName",
                    cx.program.type_span_of(reference),
                ),
            }
        }),
{
    reveal(Names::resolve_self);
    reveal(Names::report);
}

/// An associated type of a type is the one of that name of the concept that is
/// written, or of the enclosing one; without a concept, or where the concept has
/// none of that name, it is reported.
pub proof fn law_projected_types(
    n: Names,
    cx: &Sources,
    reference: TypeRefId,
    self_ty: TyId,
    written: Option<Path>,
    associated: String,
    context: TypeContext,
    concept: DefId,
)
    requires
        n.wf(),
        room(n, 1),
        self_ty.0 < n.types.len(),
        match written {
            Some(path) => path.concept == Resolved::Found(concept),
            None => context.self_concept == Some(concept),
        },
    ensures
        ({
            let (after, ty) = n.project(cx, reference, self_ty, written, associated, context);
            match cx.program.associated_named(concept, associated@) {
                Some(associated_type) => after.diagnostics == n.diagnostics && shaped(
                    after,
                    ty,
                    TyData::Projection { self_ty, concept, associated_type },
                ),
                None => ty == error_ty() && reported(
                    n.diagnostics,
                    after.diagnostics,
                    "UnknownName",
                    cx.program.type_span_of(reference),
                ),
            }
        }),
{
    reveal(Names::project);
    reveal(Names::report);
    match cx.program.associated_named(concept, associated@) {
        Some(associated_type) => lemma_made(
            n,
            TyData::Projection { self_ty, concept, associated_type },
        ),
        None => {},
    }
}

/// An associated type of a parameter is that of its one bound that declares it:
/// what the bound fixes for it, or the projection. None, or more than one, is
/// reported.
pub proof fn law_projections_of_parameters(
    n: Names,
    parameter: GenericParamId,
    parameter_name: String,
    associated_name: String,
    span: Span,
    candidates: Chain<(ConceptInstance, DefId)>,
)
    requires
        n.wf(),
        room(n, 2),
    ensures
        ({
            let (after, ty) = n.pick_projection(
                parameter,
                parameter_name,
                associated_name,
                span,
                candidates,
            );
            &&& candidates.seq().len() == 0 ==> ty == error_ty() && reported(
                n.diagnostics,
                after.diagnostics,
                "UnknownName",
                span,
            )
            &&& candidates.seq().len() > 1 ==> ty == error_ty() && reported(
                n.diagnostics,
                after.diagnostics,
                "AssociatedProjectionAmbiguous",
                span,
            )
            &&& candidates.seq().len() == 1 ==> after.diagnostics == n.diagnostics
                && match crate::unify::first_binding(
                candidates.seq()[0].0.bindings,
                candidates.seq()[0].1,
            ) {
                Some(fixed) => ty == fixed && after == n,
                None => match ty_data(after.types, ty) {
                    TyData::Projection { self_ty, concept, associated_type } => concept
                        == candidates.seq()[0].0.concept && associated_type
                        == candidates.seq()[0].1 && shaped(
                        after,
                        self_ty,
                        TyData::Param(parameter),
                    ),
                    _ => false,
                },
            }
        }),
{
    reveal(Names::pick_projection);
    reveal(Names::report);
    reveal_with_fuel(Chain::<_>::seq, 3);
    lemma_len(candidates);
    lemma_made(n, TyData::Param(parameter));
    let (between, self_ty) = n.intern(TyData::Param(parameter));
    if candidates is Link {
        let last = candidates->0.item;
        let shape = TyData::Projection {
            self_ty,
            concept: last.0.concept,
            associated_type: last.1,
        };
        lemma_made(between, shape);
        assert(ty_data(between.intern(shape).0.types, self_ty) == ty_data(between.types, self_ty));
    }
}

/// One of the requirements changes its receiver.
pub open spec fn changes_receiver(program: &Program, requirement: DefId) -> bool {
    match program.kind_of(requirement) {
        Some(DefinitionKind::Method { owner: _, signature }) => signature.receiver == Some(
            ReceiverKind::Mutable,
        ),
        _ => false,
    }
}

/// The interface of a concept is one that can change its value exactly if a
/// requirement of the concept changes its receiver.
pub proof fn law_interface_mutability(program: &Program, requirements: Chain<DefId>)
    ensures
        program.any_mutable(requirements) <==> exists|i: int|
            0 <= i < requirements.seq().len() && changes_receiver(
                program,
                #[trigger] requirements.seq()[i],
            ),
    decreases requirements,
{
    if requirements is Link {
        let rest = requirements.without_last();
        let last = requirements->0.item;
        law_interface_mutability(program, rest);
        assert(requirements.seq() == rest.seq().push(last));
        assert(requirements.seq()[rest.seq().len() as int] == last);
        if program.any_mutable(rest) {
            let i = choose|i: int|
                0 <= i < rest.seq().len() && changes_receiver(program, #[trigger] rest.seq()[i]);
            assert(requirements.seq()[i] == rest.seq()[i]);
        }
        if exists|i: int|
            0 <= i < requirements.seq().len() && changes_receiver(
                program,
                #[trigger] requirements.seq()[i],
            ) {
            let i = choose|i: int|
                0 <= i < requirements.seq().len() && changes_receiver(
                    program,
                    #[trigger] requirements.seq()[i],
                );
            if i < rest.seq().len() {
                assert(rest.seq()[i] == requirements.seq()[i]);
            }
        }
    }
}

/// The type of an interface is a view of its concept, which can change its
/// value if the concept says so.
pub proof fn law_interface_types(n: Names, program: &Program, target: ConceptInstance)
    requires
        n.wf(),
        room(n, 2),
        crate::ty::bindings_below(target.bindings, n.types.len() as int),
    ensures
        ({
            let (after, ty) = n.dynamic_view_type(program, target);
            &&& after.diagnostics == n.diagnostics
            &&& match ty_data(after.types, ty) {
                TyData::View { mutability, target: inner } => shaped(
                    after,
                    inner,
                    TyData::DynTarget(target),
                ) && match program.kind_of(target.concept) {
                    Some(
                        DefinitionKind::Concept {
                            dyn_capable: _,
                            associated_types: _,
                            requirements,
                        },
                    ) => mutability == Mutability::Mutable <==> program.any_mutable(requirements),
                    _ => mutability == Mutability::ReadOnly,
                },
                _ => false,
            }
        }),
{
    reveal(Names::dynamic_view_type);
    lemma_made(n, TyData::DynTarget(target));
    let (between, inner) = n.intern(TyData::DynTarget(target));
    let shape = TyData::View {
        mutability: program.view_mutability(target.concept),
        target: inner,
    };
    lemma_made(between, shape);
    assert(ty_data(between.intern(shape).0.types, inner) == ty_data(between.types, inner));
}

/// A concept is named by a path that finds one; as an interface it must be
/// declared to be one.
pub proof fn law_named_concepts(n: Names, cx: &Sources, path: Path, require_dynamic: bool)
    ensures
        ({
            let (after, found) = n.begin_concept(cx, path, require_dynamic);
            match path.concept {
                Resolved::Found(concept) => match cx.program.kind_of(concept) {
                    Some(
                        DefinitionKind::Concept {
                            dyn_capable,
                            associated_types: _,
                            requirements: _,
                        },
                    ) => found == Some(concept) && (if require_dynamic && !dyn_capable {
                        reported(
                            n.diagnostics,
                            after.diagnostics,
                            "DynNotDeclared",
                            path.last_span(),
                        )
                    } else {
                        after == n
                    }),
                    _ => found is None,
                },
                _ => found is None && after.diagnostics is Link && after.diagnostics->0.rest
                    == n.diagnostics,
            }
        }),
{
    reveal(Names::begin_concept);
    reveal(Names::report_unresolved);
    reveal(Names::report);
}

/// How many of the associated types are not fixed.
pub open spec fn unfixed(declared: Chain<DefId>, seen: Chain<u32>) -> nat
    decreases declared,
{
    match declared {
        Chain::Empty => 0,
        Chain::Link(link) => unfixed(link.rest, seen) + if has_id(seen, link.item.0) {
            0nat
        } else {
            1nat
        },
    }
}

/// An interface fixes every associated type of its concept: each that it does
/// not is reported.
pub proof fn law_interfaces_fix_types(
    n: Names,
    declared: Chain<DefId>,
    seen: Chain<u32>,
    span: Span,
)
    ensures
        n.report_unbound(declared, seen, span).diagnostics.spec_len() == n.diagnostics.spec_len()
            + unfixed(declared, seen),
        unfixed(declared, seen) == 0 ==> n.report_unbound(declared, seen, span) == n,
    decreases declared,
{
    reveal_with_fuel(Names::report_unbound, 2);
    reveal(Names::report);
    if declared is Link {
        law_interfaces_fix_types(n, declared.without_last(), seen, span);
    }
}

/// A constant is declared with the type that is written for it, which must be
/// a truth value, a number or a text; any other is reported.
pub proof fn law_constant_types(
    s: Survey,
    cx: &Sources,
    definition: DefId,
    ty: TypeRefId,
    context: TypeContext,
)
    ensures
        ({
            let (n, resolved) = s.names.resolve_type_ref(
                cx,
                ty,
                context,
                crate::resolve::RESOLUTION_LIMIT,
            );
            let after = s.declare_constant(cx, definition, ty, context);
            let allowed = match ty_data(n.types, resolved) {
                TyData::Builtin(builtin) => builtin == BuiltinType::Bool || builtin
                    == BuiltinType::Int || builtin == BuiltinType::Float || builtin
                    == BuiltinType::Text,
                _ => false,
            };
            &&& after.signature_of(definition) == Some(Signature::Constant { ty: resolved })
            &&& allowed ==> after.names == n
            &&& !allowed ==> reported(
                n.diagnostics,
                after.names.diagnostics,
                "InvalidConstantType",
                cx.program.type_span_of(ty),
            )
        }),
{
    reveal(Survey::declare_constant);
    reveal(Survey::set_signature);
    reveal(Names::report);
}

/// A test takes nothing and returns nothing, or an error.
pub proof fn law_test_signatures(
    n: Names,
    program: &Program,
    definition: DefId,
    signature: CallableSignature,
)
    ensures
        ({
            let after = n.validate_test_signature(program, definition, signature);
            let unit = builtin_ty(BuiltinType::Unit);
            let gives = signature.return_ty == unit || match ty_data(
                n.types,
                signature.return_ty,
            ) {
                TyData::Result { ok, error: _ } => ok == unit,
                _ => false,
            };
            let plain = signature.generic_params is Empty && signature.receiver is None
                && signature.params is Empty;
            &&& gives && plain ==> after == n
            &&& !(gives && plain) ==> reported(
                n.diagnostics,
                after.diagnostics,
                "InvalidTestSignature",
                program.span_of(definition),
            )
        }),
{
    reveal(Names::validate_test_signature);
    reveal(Names::report);
}

/// A signature has the receiver, the parameters and the generic parameters that
/// are written, in their order, and returns nothing where no type is written.
pub proof fn law_declared_signatures(
    n: Names,
    cx: &Sources,
    owner: DefId,
    source: CallableSource,
    is_async: bool,
    context: TypeContext,
)
    ensures
        ({
            let signature = n.resolve_callable(cx, owner, source, is_async, context).1;
            &&& signature.is_async == is_async
            &&& signature.receiver == source.receiver
            &&& signature.call_generic_params == source.generic_params
            &&& signature.generic_params == cx.program.generic_ids(
                owner,
                crate::declare::OWNER_LIMIT,
            )
            &&& signature.params.seq().len() == source.params.seq().len()
            &&& forall|i: int|
                0 <= i < source.params.seq().len() ==> signature.params.seq()[i].0
                    == #[trigger] source.params.seq()[i]
            &&& source.return_ty is None ==> signature.return_ty == builtin_ty(BuiltinType::Unit)
        }),
{
    reveal(Names::resolve_callable);
    reveal(Names::resolve_return);
    let first = n.validate_generic_params(cx.program, source.generic_params);
    lemma_params_in_order(first, cx, source.params, context);
}

proof fn lemma_params_in_order(n: Names, cx: &Sources, params: Chain<ParamId>, context: TypeContext)
    ensures
        ({
            let list = n.resolve_params(cx, params, context).1;
            &&& list.seq().len() == params.seq().len()
            &&& forall|i: int|
                0 <= i < params.seq().len() ==> list.seq()[i].0 == #[trigger] params.seq()[i]
        }),
    decreases params,
{
    reveal_with_fuel(Names::resolve_params, 2);
    if params is Link {
        let rest = params.without_last();
        let last = params->0.item;
        lemma_params_in_order(n, cx, rest, context);
        let before = n.resolve_params(cx, rest, context).1;
        let list = n.resolve_params(cx, params, context).1;
        let given = list->0.item;
        assert(list == before.pushed(given));
        assert(list.seq() == before.seq().push(given));
        assert(params.seq() == rest.seq().push(last));
        assert forall|i: int| 0 <= i < params.seq().len() implies list.seq()[i].0
            == #[trigger] params.seq()[i] by {
            if i < rest.seq().len() {
                assert(rest.seq()[i] == params.seq()[i]);
            }
        }
    }
}

/// A later parameter, or member, of a name that is taken is reported, and no
/// other.
pub proof fn law_repeated_names(
    n: Names,
    program: &Program,
    parameters: Chain<GenericParamId>,
    last: GenericParamId,
    members: Chain<DefId>,
    member: DefId,
)
    ensures
        ({
            let before = n.validate_generic_params(program, parameters);
            let after = n.validate_generic_params(program, parameters.pushed(last));
            let taken = match at(program.generic_params@, last.0) {
                Some(source) => generic_named(program, parameters, source.name@) is Some,
                None => false,
            };
            &&& taken ==> after.diagnostics is Link && after.diagnostics->0.rest
                == before.diagnostics && after.diagnostics->0.item.code == "DuplicateDeclaration"
            &&& !taken ==> after == before
        }),
        ({
            let before = n.validate_unique_members(program, members);
            let after = n.validate_unique_members(program, members.pushed(member));
            let taken = match program.name_of(member) {
                Some(name) => program.last_named(members, name@) is Some,
                None => false,
            };
            &&& taken ==> reported(
                before.diagnostics,
                after.diagnostics,
                "DuplicateDeclaration",
                program.span_of(member),
            )
            &&& !taken ==> after == before
        }),
        n.validate_generic_params(program, Chain::Empty) == n,
        n.validate_unique_members(program, Chain::Empty) == n,
{
    reveal_with_fuel(Names::validate_generic_params, 2);
    reveal_with_fuel(Names::validate_unique_members, 2);
    reveal(Names::report);
}

/// A method block without a concept belongs into the module of its type.
pub proof fn law_inherent_methods_stay_home(
    s: Survey,
    cx: &Sources,
    definition: DefId,
    generic_params: Chain<GenericParamId>,
    target: TypeRefId,
    context: TypeContext,
)
    ensures
        ({
            let first = s.names.validate_generic_params(cx.program, generic_params);
            let (n, ty) = first.resolve_type_ref(
                cx,
                target,
                context,
                crate::resolve::RESOLUTION_LIMIT,
            );
            let after = s.declare_inherent(cx, definition, generic_params, target, context);
            let home = match ty_data(n.types, ty) {
                TyData::Nominal { definition: owner, arguments: _ } => cx.program.module_of(owner)
                    == cx.program.module_of(definition),
                _ => false,
            };
            &&& home ==> after.names == n
            &&& !home ==> reported(
                n.diagnostics,
                after.names.diagnostics,
                "ForeignInherentImpl",
                cx.program.span_of(definition),
            )
        }),
{
    reveal(Survey::declare_inherent);
    reveal(Names::report);
}

} // verus!
