//! What holds where declarations and uses meet: overlapping implementations,
//! imported names, bound associated types, matched patterns and settled calls.

use vstd::prelude::*;

use crate::calls::Mutation;
use crate::chain::Chain;
use crate::def_map::Scopes;
use crate::diagnostics::reported;
use crate::flow::FlowState;
use crate::hir::{
    at, BindingRef, DefinitionKind, Expr, Import, Path, Pattern, Program, RecordFieldValue,
    TypeArgumentRef,
};
use crate::ids::{DefId, ModuleId, Span, TyId, TypeRefId};
use crate::lookup::record_named;
use crate::patterns::CheckedPattern;
use crate::records::protected_record;
use crate::resolve::{Names, Sources, TypeContext};
use crate::state::{Context, World};
use crate::survey::Survey;
use crate::table::has_id;
use crate::ty::Mutability;

verus! {

/// Two implementations that could apply to one type are reported at the later
/// of them: as a repetition if they are for the same type, and as an overlap if
/// not.
pub proof fn law_overlaps_are_reported(
    survey: Survey,
    cx: &Sources,
    pairs: Chain<(DefId, DefId)>,
    last: (DefId, DefId),
)
    ensures
        ({
            let before = survey.report_overlaps(cx, pairs);
            let after = survey.report_overlaps(cx, pairs.pushed(last));
            let left = before.st.conformances.lookup(last.0.0);
            let right = before.st.conformances.lookup(last.1.0);
            reported(
                before.names.diagnostics,
                after.names.diagnostics,
                if left is Some && right is Some && left->0.target == right->0.target {
                    "DuplicateConformance"
                } else {
                    "OverlappingConformance"
                },
                cx.program.span_of(last.1),
            )
        }),
        survey.report_overlaps(cx, Chain::Empty) == survey,
{
    reveal_with_fuel(Survey::report_overlaps, 2);
    reveal(Survey::report);
    reveal(Names::report);
}

/// A binding of an associated type is taken over once: a name that the concept
/// does not have is reported, and so is a second binding of one name.
pub proof fn law_bindings_are_taken_once(
    names: Names,
    cx: &Sources,
    concept: DefId,
    bindings: Chain<BindingRef>,
    last: BindingRef,
    span: Span,
    context: TypeContext,
    budget: u32,
)
    ensures
        ({
            let (before, list, seen) = names.resolve_bindings(
                cx,
                concept,
                bindings,
                span,
                context,
                budget,
            );
            let (after, more, known) = names.resolve_bindings(
                cx,
                concept,
                bindings.pushed(last),
                span,
                context,
                budget,
            );
            match cx.program.associated_named(concept, last.name@) {
                None => more == list && known == seen && reported(
                    before.diagnostics,
                    after.diagnostics,
                    "UnknownName",
                    span,
                ),
                Some(associated) => {
                    &&& has_id(known, associated.0)
                    &&& has_id(seen, associated.0) ==> more == list && known == seen && reported(
                        before.diagnostics,
                        after.diagnostics,
                        "DuplicateDeclaration",
                        span,
                    )
                    &&& !has_id(seen, associated.0) ==> more.spec_len() == list.spec_len() + 1
                        && more->0.item.associated_type == associated && more->0.item.ty
                        == before.resolve_type_ref(cx, last.ty, context, budget).1
                },
            }
        }),
{
    reveal_with_fuel(Names::resolve_bindings, 2);
    reveal(Names::report);
    reveal_with_fuel(Chain::<_>::spec_len, 2);
    let (before, list, seen) = names.resolve_bindings(cx, concept, bindings, span, context, budget);
    match cx.program.associated_named(concept, last.name@) {
        Some(associated) => {
            crate::table::law_insert_id(seen, associated.0, associated.0);
        },
        None => {},
    }
}

/// An interface has to bind every associated type of its concept: each that it
/// does not bind is reported.
pub proof fn law_interfaces_bind_all(
    names: Names,
    associated_types: Chain<DefId>,
    last: DefId,
    seen: Chain<u32>,
    span: Span,
)
    ensures
        ({
            let before = names.report_unbound(associated_types, seen, span);
            let after = names.report_unbound(associated_types.pushed(last), seen, span);
            &&& has_id(seen, last.0) ==> after == before
            &&& !has_id(seen, last.0) ==> reported(
                before.diagnostics,
                after.diagnostics,
                "DynAssociatedTypeUnbound",
                span,
            )
        }),
        names.report_unbound(Chain::Empty, seen, span) == names,
{
    reveal_with_fuel(Names::report_unbound, 2);
    reveal(Names::report);
}

/// Only an interface has to bind them: another use of a concept does not.
pub proof fn law_only_interfaces_bind_all(
    names: Names,
    cx: &Sources,
    concept: DefId,
    seen: Chain<u32>,
    span: Span,
)
    ensures
        names.require_bound(cx, concept, seen, false, span) == names,
        (match cx.program.kind_of(concept) {
            Some(DefinitionKind::Concept { dyn_capable: _, associated_types, requirements: _ }) =>
                names.require_bound(cx, concept, seen, true, span) == names.report_unbound(
                    associated_types,
                    seen,
                    span,
                ),
            _ => true,
        }),
{
    reveal(Names::require_bound);
}

/// Where types are asked for each argument is one, and a binding is reported.
pub proof fn law_type_arguments_are_types(
    names: Names,
    cx: &Sources,
    list: Chain<TypeArgumentRef>,
    last: TypeArgumentRef,
    context: TypeContext,
    reference: TypeRefId,
    budget: u32,
)
    ensures
        ({
            let (before, types) = names.resolve_arguments(cx, list, context, reference, budget);
            let (after, more) = names.resolve_arguments(
                cx,
                list.pushed(last),
                context,
                reference,
                budget,
            );
            match last {
                TypeArgumentRef::Type(argument) => more.seq() == types.seq().push(
                    before.resolve_type_ref(cx, argument, context, budget).1,
                ),
                TypeArgumentRef::Binding(_) => more == types && reported(
                    before.diagnostics,
                    after.diagnostics,
                    "TypeMismatch",
                    cx.program.type_span_of(reference),
                ),
            }
        }),
{
    reveal_with_fuel(Names::resolve_arguments, 2);
    reveal(Names::report);
    reveal_with_fuel(Chain::<_>::seq, 2);
}

/// An import of a name that its module does not define is reported at the
/// import, and brings nothing; one from a module that does not exist brings
/// nothing either.
pub proof fn law_unknown_imports(
    scopes: Scopes,
    program: &Program,
    module: ModuleId,
    import: Import,
    name: String,
    from: ModuleId,
)
    ensures
        ({
            let after = scopes.import_from(program, module, import, name, from);
            match at(scopes.maps, from.0) {
                None => after == scopes,
                Some(target) => target.declared_as(crate::def_map::Namespace::Type, name@) is None
                    && target.declared_as(crate::def_map::Namespace::Value, name@) is None
                    && target.declared_as(crate::def_map::Namespace::Concept, name@) is None
                    ==> after.maps == scopes.maps && reported(
                    scopes.diagnostics,
                    after.diagnostics,
                    "UnknownName",
                    import.span,
                ),
            }
        }),
{
}

/// A concept is the cleanup of resources only as the language has it: no
/// interface, without associated types, with the one requirement.
pub proof fn law_cleanup_concepts(
    survey: Survey,
    program: &Program,
    concept: DefId,
    requirement: Option<DefId>,
)
    ensures
        (match program.kind_of(concept) {
            Some(DefinitionKind::Concept { dyn_capable, associated_types, requirements }) =>
                survey.is_dispose_concept(program, concept, requirement) ==> !dyn_capable
                    && associated_types is Empty && requirement is Some && requirements.seq()
                    == seq![requirement->0],
            _ => true,
        }),
{
    reveal(Survey::is_dispose_concept);
    reveal_with_fuel(Chain::<_>::seq, 3);
    match (program.kind_of(concept), requirement) {
        (
            Some(DefinitionKind::Concept { dyn_capable, associated_types, requirements }),
            Some(found),
        ) => {
            if survey.is_dispose_concept(program, concept, requirement) {
                assert(requirements.seq() =~= seq![found]);
            }
        },
        _ => {},
    }
}

/// An arm that the arms before it cover is reported. Each arm starts from what
/// was known before the match.
pub proof fn law_covered_arms(
    w: World,
    cx: &Context,
    pattern: Pattern,
    scrutinee_ty: TyId,
    entry: FlowState,
    rows: Chain<Chain<CheckedPattern>>,
)
    ensures
        ({
            let (after, useful, more) = w.begin_arm(cx, pattern, scrutinee_ty, entry, rows);
            let (looked, checked) = w.restored(entry).set_scopes(
                w.st.scopes.pushed(Chain::Empty),
            ).check_pattern(cx, pattern, scrutinee_ty);
            let (asked, answer) = looked.pattern_is_useful(cx, scrutinee_ty, rows, checked);
            &&& useful == answer
            &&& useful ==> after == asked
            &&& !useful ==> reported(
                asked.st.diagnostics,
                after.st.diagnostics,
                "UnreachableMatchArm",
                pattern.span,
            )
            &&& checked is Invalid ==> more == rows
            &&& checked !is Invalid ==> more.seq() == rows.seq().push(Chain::Empty.pushed(checked))
        }),
{
    reveal(World::begin_arm);
    reveal(World::report);
    reveal_with_fuel(Chain::<_>::seq, 2);
}

/// An interface that is passed on has to name a variable if it can be changed
/// through. One that is a view already is passed as it is.
pub proof fn law_interfaces_are_lent(w: World, e: Expr, mutability: Mutability)
    ensures
        ({
            let after = w.reborrow_interface_argument(e, mutability);
            let mutable = mutability == Mutability::Mutable;
            &&& w.st.semantics.views.lookup(e.id.0) is Some ==> after == w
            &&& w.st.semantics.views.lookup(e.id.0) is None ==> match w.place_of(e.id) {
                None => {
                    &&& !mutable ==> after == w
                    &&& mutable ==> reported(
                        w.st.diagnostics,
                        after.st.diagnostics,
                        "DynMutReceiverUnavailable",
                        e.span,
                    )
                },
                Some(owner) => {
                    let lent = exists|told: World|
                        {
                            &&& mutable && owner.mutability != Mutability::Mutable && !(owner.root
                                is Param) ==> reported(
                                w.st.diagnostics,
                                told.st.diagnostics,
                                "DynMutReceiverUnavailable",
                                e.span,
                            )
                            &&& !mutable || owner.mutability == Mutability::Mutable || owner.root
                                is Param ==> told == w
                            &&& after.st.flow == (#[trigger] told.next_token().register_view(
                                owner,
                                mutable,
                                told.st.next_view_token,
                                e.span,
                            )).st.flow
                        };
                    lent
                },
            }
        }),
{
    reveal(World::reborrow_interface_argument);
    reveal(World::report);
    reveal(World::set_view);
    reveal(World::set_coercion);
    match w.place_of(e.id) {
        Some(owner) => {
            let mutable = mutability == Mutability::Mutable;
            let told = if mutable && !(owner.mutability == Mutability::Mutable || owner.root
                is Param) {
                w.text_error(
                    "DynMutReceiverUnavailable",
                    "this interface can modify its receiver, so the argument must be a variable",
                    e.span,
                )
            } else {
                w
            };
            let seen = told.next_token().register_view(
                owner,
                mutable,
                told.st.next_view_token,
                e.span,
            );
        },
        None => {},
    }
}

/// A record literal names a record that may be made by hand; anything else is
/// reported and gives no record.
pub proof fn law_made_records(
    w: World,
    cx: &Context,
    e: Expr,
    path: Path,
    values: Chain<RecordFieldValue>,
    expected: Option<TyId>,
)
    ensures
        ({
            let (after, start) = w.begin_record(cx, e, path, values, expected);
            match record_named(cx, path) {
                None => start is None && reported(
                    w.st.diagnostics,
                    after.st.diagnostics,
                    "UnknownName",
                    e.span,
                ),
                Some(definition) => match cx.program.kind_of(definition) {
                    Some(DefinitionKind::Record { generic_params, fields, invariant_body }) => {
                        &&& (start is None) == (protected_record(cx, definition) is Some)
                        &&& start is None ==> reported(
                            w.st.diagnostics,
                            after.st.diagnostics,
                            "TypeMismatch",
                            e.span,
                        )
                        &&& start is Some ==> start->0.definition == definition
                            && start->0.generic_params == generic_params && start->0.fields
                            == fields && start->0.has_invariant == (invariant_body is Some)
                    },
                    _ => start is None && reported(
                        w.st.diagnostics,
                        after.st.diagnostics,
                        "TypeMismatch",
                        e.span,
                    ),
                },
            }
        }),
{
    reveal(World::begin_record);
    reveal(World::report);
}

/// What a call changes counts for `self` if a changed place goes through its
/// invariant, and a receiver that is changed already is reported at most once.
pub proof fn law_changed_receivers(
    w: World,
    cx: &Context,
    list: Chain<Mutation>,
    last: Mutation,
    dirty_before: bool,
)
    ensures
        ({
            let (before, dirties, told) = w.apply_mutations(cx, list, dirty_before);
            let (after, now, known) = w.apply_mutations(cx, list.pushed(last), dirty_before);
            let crosses = before.check_invariant_mutation_boundary(
                cx,
                last.span,
                last.owner,
                crate::state::InvariantMutation::ReceiverCall,
            ).1;
            &&& now == (dirties || crosses)
            &&& known == (told || crosses && dirty_before)
        }),
        w.apply_mutations(cx, Chain::Empty, dirty_before) == (w, false, false),
{
    reveal_with_fuel(World::apply_mutations, 2);
}

} // verus!
