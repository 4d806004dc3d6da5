//! Which types carry tasks, resources and what cannot be compared.

use vstd::prelude::*;

use crate::chain::Chain;
use crate::hir::DefinitionKind;
use crate::ids::{DefId, TyId};
use crate::obligations::{
    any_carries,
    carries,
    field_carries,
    payload_carries,
    resource_conformance,
    variant_carries,
    Carried,
};
use crate::semantics::Signature;
use crate::state::Context;
use crate::substitution::{substituted, Substitution};
use crate::table::{has_id, id_inserted};
use crate::ty::{ty_data, BuiltinType, TyData};
use crate::unify::paired;

verus! {

/// A task carries a task; a value that is made of others does if one of them
/// does, and a builtin value, a parameter or an interface does not.
pub proof fn law_tasks_are_carried(
    cx: &Context,
    types: Seq<TyData>,
    ty: TyId,
    active: Chain<u32>,
    depth: u16,
)
    requires
        depth < 128,
    ensures
        ({
            let found = carries(cx, Carried::Task, types, ty, active, depth);
            let next = (depth + 1) as u16;
            match ty_data(types, ty) {
                TyData::Task(_) => found == (types, true),
                TyData::Option(part)
                | TyData::List(part)
                | TyData::TextMap(part)
                | TyData::TaskOutcome(part) => found == carries(
                    cx,
                    Carried::Task,
                    types,
                    part,
                    active,
                    next,
                ),
                TyData::Result { ok, error } => {
                    let (between, first) = carries(cx, Carried::Task, types, ok, active, next);
                    found.1 == (first || carries(
                        cx,
                        Carried::Task,
                        between,
                        error,
                        active,
                        next,
                    ).1)
                },
                TyData::Tuple(parts) => found == any_carries(
                    cx,
                    Carried::Task,
                    types,
                    parts,
                    active,
                    next,
                ),
                TyData::Nominal { definition: _, arguments: _ } => has_id(active, ty.0)
                    ==> !found.1,
                _ => found == (types, false),
            }
        }),
{
    reveal_with_fuel(carries, 2);
}

/// A parameter, `Self` or an associated type may hold anything: that they carry
/// nothing is not known. Of a task, and of what is made of known types, it is.
pub proof fn law_unknown_duties(
    cx: &Context,
    types: Seq<TyData>,
    ty: TyId,
    active: Chain<u32>,
    depth: u16,
)
    requires
        depth < 128,
    ensures
        ({
            let found = carries(cx, Carried::Unknown, types, ty, active, depth);
            let next = (depth + 1) as u16;
            match ty_data(types, ty) {
                TyData::Param(_) => found.1,
                TyData::SelfType(_) => found.1,
                TyData::Projection { self_ty: _, concept: _, associated_type: _ } => found.1,
                TyData::Builtin(_) => !found.1,
                TyData::Task(_) => !found.1,
                TyData::Option(part)
                | TyData::List(part)
                | TyData::TextMap(part)
                | TyData::TaskOutcome(part) => found.1 == carries(
                    cx,
                    Carried::Unknown,
                    types,
                    part,
                    active,
                    next,
                ).1,
                _ => true,
            }
        }),
{
    reveal_with_fuel(carries, 2);
}

/// A value must be scoped if its type conforms to the concept that says so, or
/// if a part of it must. A task need not.
pub proof fn law_scoping_duties(
    cx: &Context,
    types: Seq<TyData>,
    ty: TyId,
    active: Chain<u32>,
    depth: u16,
)
    requires
        depth < 128,
    ensures
        ({
            let found = carries(cx, Carried::MustScope, types, ty, active, depth);
            let (asked, witness) = resource_conformance(
                cx,
                types,
                ty,
                cx.canonical_concepts.must_scope,
            );
            let next = (depth + 1) as u16;
            &&& ty_data(types, ty) is Task ==> !found.1
            &&& !(ty_data(types, ty) is Task) && witness is Some ==> found.1
            &&& !(ty_data(types, ty) is Task) && witness is None ==> match ty_data(asked, ty) {
                TyData::Option(part)
                | TyData::List(part)
                | TyData::TextMap(part)
                | TyData::TaskOutcome(part) => found.1 == carries(
                    cx,
                    Carried::MustScope,
                    asked,
                    part,
                    active,
                    next,
                ).1,
                TyData::Builtin(_) => !found.1,
                TyData::Param(_) => !found.1,
                _ => true,
            }
        }),
{
    reveal_with_fuel(carries, 2);
}

/// Values of tasks, interfaces and parameters cannot be compared, nor contract
/// faults and what holds any of these; other builtin values can.
pub proof fn law_comparable_values(
    cx: &Context,
    types: Seq<TyData>,
    ty: TyId,
    active: Chain<u32>,
    depth: u16,
    symbolic: bool,
)
    requires
        depth < 128,
    ensures
        ({
            let what = Carried::Incomparable { symbolic };
            let found = carries(cx, what, types, ty, active, depth);
            let next = (depth + 1) as u16;
            match ty_data(types, ty) {
                TyData::Task(_) => found.1,
                TyData::Param(_) => found.1,
                TyData::DynTarget(_) => found.1,
                TyData::View { mutability: _, target: _ } => found.1,
                TyData::Builtin(builtin) => found.1 <==> builtin == BuiltinType::ContractFault,
                TyData::SelfType(_) => found.1 <==> !symbolic,
                TyData::Projection { self_ty: _, concept: _, associated_type: _ } => found.1
                    <==> !symbolic,
                TyData::Option(part)
                | TyData::List(part)
                | TyData::TextMap(part)
                | TyData::TaskOutcome(part) => found.1 == carries(
                    cx,
                    what,
                    types,
                    part,
                    active,
                    next,
                ).1,
                TyData::Nominal { definition, arguments: _ } => cx.canonical_std_items.file == Some(
                    definition,
                ) || cx.canonical_std_items.socket == Some(definition)
                    || cx.canonical_std_items.io_error == Some(definition) ==> found.1,
                _ => true,
            }
        }),
{
    reveal_with_fuel(carries, 2);
}

/// A type that is nested too deep to be looked into is taken to carry
/// everything.
pub proof fn law_deep_types_carry(
    cx: &Context,
    what: Carried,
    types: Seq<TyData>,
    ty: TyId,
    active: Chain<u32>,
    depth: u16,
)
    requires
        depth >= 128,
    ensures
        carries(cx, what, types, ty, active, depth) == (types, true),
{
}

/// The types of a list carry something if one of them does: a list carries it
/// if its last type does, or those before it do.
pub proof fn law_lists_carry(
    cx: &Context,
    what: Carried,
    types: Seq<TyData>,
    list: Chain<TyId>,
    last: TyId,
    active: Chain<u32>,
    depth: u16,
)
    ensures
        ({
            let (between, before) = any_carries(cx, what, types, list, active, depth);
            any_carries(cx, what, types, list.pushed(last), active, depth).1 == (before || carries(
                cx,
                what,
                between,
                last,
                active,
                depth,
            ).1)
        }),
        any_carries(cx, what, types, Chain::Empty, active, depth) == (types, false),
{
    reveal_with_fuel(any_carries, 2);
}

/// A record carries what a field of it carries, and an enumeration what the
/// payload of a variant does, with the type's arguments for its parameters.
pub proof fn law_declared_types_carry(
    cx: &Context,
    types: Seq<TyData>,
    ty: TyId,
    active: Chain<u32>,
    depth: u16,
    definition: DefId,
    arguments: Chain<TyId>,
)
    requires
        depth < 128,
        ty_data(types, ty) == (TyData::Nominal { definition, arguments }),
        !has_id(active, ty.0),
    ensures
        ({
            let found = carries(cx, Carried::Task, types, ty, active, depth);
            let next = (depth + 1) as u16;
            let given = paired(
                cx.program.type_params_of(definition),
                arguments,
                Substitution::empty(),
            );
            let inside = id_inserted(active, ty.0);
            match cx.program.kind_of(definition) {
                Some(DefinitionKind::Record { generic_params: _, fields, invariant_body: _ }) =>
                    found == field_carries(
                    cx,
                    Carried::Task,
                    types,
                    fields,
                    given,
                    inside,
                    next,
                ),
                Some(DefinitionKind::Enum { generic_params: _, variants }) => found
                    == variant_carries(cx, Carried::Task, types, variants, given, inside, next),
                Some(DefinitionKind::RefinedType { base, predicate: _ }) =>
                    match cx.type_refs.lookup(base.0) {
                        Some(declared) => {
                            let (between, replaced) = substituted(types, declared, given);
                            found == carries(cx, Carried::Task, between, replaced, inside, next)
                        },
                        None => !found.1,
                    },
                _ => !found.1,
            }
        }),
{
    reveal_with_fuel(carries, 2);
}

/// The fields of a record carry something if one of them does, with the type's
/// arguments for its parameters; so do the types of a payload and the variants
/// of an enumeration.
pub proof fn law_members_carry(
    cx: &Context,
    what: Carried,
    types: Seq<TyData>,
    members: Chain<DefId>,
    last: DefId,
    payload: Chain<TyId>,
    part: TyId,
    given: Substitution,
    active: Chain<u32>,
    depth: u16,
)
    ensures
        ({
            let (between, before) = field_carries(cx, what, types, members, given, active, depth);
            let all = field_carries(cx, what, types, members.pushed(last), given, active, depth).1;
            match cx.signature_of(last) {
                Some(Signature::Field { owner: _, ty }) => {
                    let (after, replaced) = substituted(between, ty, given);
                    all == (before || carries(cx, what, after, replaced, active, depth).1)
                },
                _ => all == (before || what is Incomparable),
            }
        }),
        ({
            let (between, before) = variant_carries(cx, what, types, members, given, active, depth);
            let all = variant_carries(
                cx,
                what,
                types,
                members.pushed(last),
                given,
                active,
                depth,
            ).1;
            match cx.signature_of(last) {
                Some(Signature::Variant { owner: _, payload: declared }) => all == (before
                    || payload_carries(cx, what, between, declared, given, active, depth).1),
                _ => all == (before || what is Incomparable),
            }
        }),
        ({
            let (between, before) = payload_carries(cx, what, types, payload, given, active, depth);
            let (after, replaced) = substituted(between, part, given);
            payload_carries(cx, what, types, payload.pushed(part), given, active, depth).1 == (before
                || carries(cx, what, after, replaced, active, depth).1)
        }),
        !field_carries(cx, what, types, Chain::Empty, given, active, depth).1,
        !variant_carries(cx, what, types, Chain::Empty, given, active, depth).1,
        !payload_carries(cx, what, types, Chain::Empty, given, active, depth).1,
{
    reveal_with_fuel(field_carries, 2);
    reveal_with_fuel(variant_carries, 2);
    reveal_with_fuel(payload_carries, 2);
}

} // verus!
