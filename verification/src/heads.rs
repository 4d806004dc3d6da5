//! Whether the heads of two implementations can be made one type.

use vstd::prelude::*;

use crate::chain::{same_length, Chain, Same};
use crate::ids::{GenericParamId, TyId};
use crate::ty::{TyData, TyInterner};
#[allow(unused_imports)]
use crate::ty::{ty_data, types_wf};

verus! {

/// A type as it stands in the left or in the right of two heads. A parameter
/// of one is none of the other, even where they have one name.
#[derive(Clone, Copy, Debug, PartialEq, Eq, Structural)]
pub struct Sided {
    pub left: bool,
    pub ty: TyId,
}

/// A parameter of one of the heads, and what it must be.
#[derive(Clone, Copy, Debug, PartialEq, Eq, Structural)]
pub struct SidedBinding {
    pub left: bool,
    pub parameter: GenericParamId,
    pub to: Sided,
}

/// What a parameter must be.
pub open spec fn sided_lookup(
    bindings: Chain<SidedBinding>,
    left: bool,
    parameter: GenericParamId,
) -> Option<Sided>
    decreases bindings,
{
    match bindings {
        Chain::Empty => None,
        Chain::Link(link) => if link.item.left == left && link.item.parameter == parameter {
            Some(link.item.to)
        } else {
            sided_lookup(link.rest, left, parameter)
        },
    }
}

fn find_sided(bindings: &Chain<SidedBinding>, left: bool, parameter: GenericParamId) -> (to: Option<
    Sided,
>)
    ensures
        to == sided_lookup(*bindings, left, parameter),
    decreases bindings,
{
    match bindings {
        Chain::Empty => None,
        Chain::Link(link) => if link.item.left == left && link.item.parameter == parameter {
            Some(link.item.to)
        } else {
            find_sided(&link.rest, left, parameter)
        },
    }
}

/// How deep two heads are compared. Deeper ones have no room on any stack.
pub const HEAD_LIMIT: u32 = u32::MAX;

/// A parameter occurs in a type, with what the parameters in it must be put in,
/// where heads are looked into.
pub open spec fn occurs(
    types: Seq<TyData>,
    bindings: Chain<SidedBinding>,
    left: bool,
    parameter: GenericParamId,
    term: Sided,
    fuel: nat,
) -> bool
    decreases fuel, 0nat,
{
    if fuel == 0 {
        false
    } else {
        let less = (fuel - 1) as nat;
        match ty_data(types, term.ty) {
            TyData::Param(own) => if term.left == left && own == parameter {
                true
            } else {
                match sided_lookup(bindings, term.left, own) {
                    Some(to) => occurs(types, bindings, left, parameter, to, less),
                    None => false,
                }
            },
            TyData::Nominal { definition: _, arguments } => occurs_in_any(
                types,
                bindings,
                left,
                parameter,
                term.left,
                arguments,
                less,
            ),
            TyData::Option(part) => occurs(
                types,
                bindings,
                left,
                parameter,
                (Sided { left: term.left, ty: part }),
                less,
            ),
            TyData::TextMap(part) => occurs(
                types,
                bindings,
                left,
                parameter,
                (Sided { left: term.left, ty: part }),
                less,
            ),
            TyData::Result { ok, error } => occurs(
                types,
                bindings,
                left,
                parameter,
                (Sided { left: term.left, ty: ok }),
                less,
            ) || occurs(
                types,
                bindings,
                left,
                parameter,
                (Sided { left: term.left, ty: error }),
                less,
            ),
            _ => false,
        }
    }
}

/// `occurs` in one of the types of a list.
pub open spec fn occurs_in_any(
    types: Seq<TyData>,
    bindings: Chain<SidedBinding>,
    left: bool,
    parameter: GenericParamId,
    side: bool,
    list: Chain<TyId>,
    fuel: nat,
) -> bool
    decreases fuel, 1 + list.spec_len(),
{
    match list {
        Chain::Empty => false,
        Chain::Link(link) => occurs_in_any(
            types,
            bindings,
            left,
            parameter,
            side,
            link.rest,
            fuel,
        ) || occurs(types, bindings, left, parameter, (Sided { left: side, ty: link.item }), fuel),
    }
}

fn check_occurs(
    types: &TyInterner,
    bindings: &Chain<SidedBinding>,
    left: bool,
    parameter: GenericParamId,
    term: Sided,
    fuel: u32,
) -> (result: bool)
    requires
        types_wf(types@),
    ensures
        result == occurs(types@, *bindings, left, parameter, term, fuel as nat),
    decreases fuel, 0nat,
{
    if fuel == 0 {
        return false;
    }
    let side = term.left;
    match types.data(term.ty) {
        TyData::Param(own) => if side == left && *own == parameter {
            true
        } else {
            match find_sided(bindings, side, *own) {
                Some(to) => check_occurs(types, bindings, left, parameter, to, fuel - 1),
                None => false,
            }
        },
        TyData::Nominal { definition: _, arguments } => check_occurs_in_any(
            types,
            bindings,
            left,
            parameter,
            side,
            arguments,
            fuel - 1,
        ),
        TyData::Option(part) => {
            let inner = Sided { left: side, ty: *part };
            check_occurs(types, bindings, left, parameter, inner, fuel - 1)
        },
        TyData::TextMap(part) => {
            let inner = Sided { left: side, ty: *part };
            check_occurs(types, bindings, left, parameter, inner, fuel - 1)
        },
        TyData::Result { ok, error } => {
            let first = Sided { left: side, ty: *ok };
            let second = Sided { left: side, ty: *error };
            check_occurs(types, bindings, left, parameter, first, fuel - 1) || check_occurs(
                types,
                bindings,
                left,
                parameter,
                second,
                fuel - 1,
            )
        },
        _ => false,
    }
}

fn check_occurs_in_any(
    types: &TyInterner,
    bindings: &Chain<SidedBinding>,
    left: bool,
    parameter: GenericParamId,
    side: bool,
    list: &Chain<TyId>,
    fuel: u32,
) -> (result: bool)
    requires
        types_wf(types@),
    ensures
        result == occurs_in_any(types@, *bindings, left, parameter, side, *list, fuel as nat),
    decreases fuel, 1 + list.spec_len(),
{
    match list {
        Chain::Empty => false,
        Chain::Link(link) => {
            let item = Sided { left: side, ty: link.item };
            check_occurs_in_any(types, bindings, left, parameter, side, &link.rest, fuel)
                || check_occurs(types, bindings, left, parameter, item, fuel)
        },
    }
}

/// A parameter that nothing is known of must be a type, unless it occurs in it.
pub open spec fn parameter_met(
    types: Seq<TyData>,
    bindings: Chain<SidedBinding>,
    left: bool,
    parameter: GenericParamId,
    term: Sided,
    fuel: nat,
) -> (Chain<SidedBinding>, bool) {
    if occurs(types, bindings, left, parameter, term, fuel) {
        (bindings, false)
    } else {
        (bindings.pushed((SidedBinding { left, parameter, to: term })), true)
    }
}

/// What the parameters must be for two types to be one, and whether they can
/// be. Every parameter stands for one type throughout. An associated type may
/// turn out to be anything, also where a parameter stands for it.
pub open spec fn met(
    types: Seq<TyData>,
    bindings: Chain<SidedBinding>,
    a: Sided,
    b: Sided,
    fuel: nat,
) -> (Chain<SidedBinding>, bool)
    decreases fuel, 0nat,
{
    if fuel == 0 || a == b {
        (bindings, true)
    } else {
        let less = (fuel - 1) as nat;
        match (ty_data(types, a.ty), ty_data(types, b.ty)) {
            (TyData::Param(p), TyData::Param(q)) => match sided_lookup(bindings, a.left, p) {
                Some(to) => met(types, bindings, to, b, less),
                None => match sided_lookup(bindings, b.left, q) {
                    Some(to) => met(types, bindings, a, to, less),
                    None => (
                        bindings.pushed((SidedBinding { left: a.left, parameter: p, to: b })),
                        true,
                    ),
                },
            },
            (TyData::Param(p), _) => match sided_lookup(bindings, a.left, p) {
                Some(to) => met(types, bindings, to, b, less),
                None => parameter_met(types, bindings, a.left, p, b, fuel),
            },
            (_, TyData::Param(q)) => match sided_lookup(bindings, b.left, q) {
                Some(to) => met(types, bindings, a, to, less),
                None => parameter_met(types, bindings, b.left, q, a, fuel),
            },
            (
                TyData::Nominal { definition: left, arguments: left_arguments },
                TyData::Nominal { definition: right, arguments: right_arguments },
            ) => if left == right && left_arguments.spec_len() == right_arguments.spec_len() {
                lists_met(types, bindings, a.left, left_arguments, b.left, right_arguments, less)
            } else {
                (bindings, false)
            },
            (TyData::Option(left), TyData::Option(right)) => met(
                types,
                bindings,
                (Sided { left: a.left, ty: left }),
                (Sided { left: b.left, ty: right }),
                less,
            ),
            (TyData::TextMap(left), TyData::TextMap(right)) => met(
                types,
                bindings,
                (Sided { left: a.left, ty: left }),
                (Sided { left: b.left, ty: right }),
                less,
            ),
            (
                TyData::Result { ok: left_ok, error: left_error },
                TyData::Result { ok: right_ok, error: right_error },
            ) => {
                let (between, may) = met(
                    types,
                    bindings,
                    (Sided { left: a.left, ty: left_ok }),
                    (Sided { left: b.left, ty: right_ok }),
                    less,
                );
                if may {
                    met(
                        types,
                        between,
                        (Sided { left: a.left, ty: left_error }),
                        (Sided { left: b.left, ty: right_error }),
                        less,
                    )
                } else {
                    (between, false)
                }
            },
            (TyData::Projection { self_ty: _, concept: _, associated_type: _ }, _) => (
                bindings,
                true,
            ),
            (_, TyData::Projection { self_ty: _, concept: _, associated_type: _ }) => (
                bindings,
                true,
            ),
            (left, right) => (bindings, left == right),
        }
    }
}

/// `met` on two lists of one length, front to back.
pub open spec fn lists_met(
    types: Seq<TyData>,
    bindings: Chain<SidedBinding>,
    a_left: bool,
    a: Chain<TyId>,
    b_left: bool,
    b: Chain<TyId>,
    fuel: nat,
) -> (Chain<SidedBinding>, bool)
    decreases fuel, 1 + a.spec_len(),
{
    match (a, b) {
        (Chain::Link(first), Chain::Link(second)) => {
            let (between, may) = lists_met(
                types,
                bindings,
                a_left,
                first.rest,
                b_left,
                second.rest,
                fuel,
            );
            if may {
                met(
                    types,
                    between,
                    (Sided { left: a_left, ty: first.item }),
                    (Sided { left: b_left, ty: second.item }),
                    fuel,
                )
            } else {
                (between, false)
            }
        },
        _ => (bindings, true),
    }
}

/// Whether the parameters of two heads can be chosen so that the heads are one
/// type.
pub open spec fn can_meet(types: Seq<TyData>, left: TyId, right: TyId) -> bool {
    met(
        types,
        Chain::Empty,
        (Sided { left: true, ty: left }),
        (Sided { left: false, ty: right }),
        HEAD_LIMIT as nat,
    ).1
}

fn meet_parameter(
    types: &TyInterner,
    bindings: &mut Chain<SidedBinding>,
    left: bool,
    parameter: GenericParamId,
    term: Sided,
    fuel: u32,
) -> (may: bool)
    requires
        types_wf(types@),
    ensures
        (*final(bindings), may) == parameter_met(
            types@,
            *old(bindings),
            left,
            parameter,
            term,
            fuel as nat,
        ),
{
    if check_occurs(types, bindings, left, parameter, term, fuel) {
        false
    } else {
        bindings.push(SidedBinding { left, parameter, to: term });
        true
    }
}

fn meet(types: &TyInterner, bindings: &mut Chain<SidedBinding>, a: Sided, b: Sided, fuel: u32) -> (
may: bool)
    requires
        types_wf(types@),
    ensures
        (*final(bindings), may) == met(types@, *old(bindings), a, b, fuel as nat),
    decreases fuel, 0nat,
{
    if fuel == 0 || a == b {
        return true;
    }
    let less: u32 = fuel - 1;
    match (types.data(a.ty), types.data(b.ty)) {
        (TyData::Param(p), TyData::Param(q)) => match find_sided(bindings, a.left, *p) {
            Some(to) => meet(types, bindings, to, b, less),
            None => match find_sided(bindings, b.left, *q) {
                Some(to) => meet(types, bindings, a, to, less),
                None => {
                    bindings.push(SidedBinding { left: a.left, parameter: *p, to: b });
                    true
                },
            },
        },
        (TyData::Param(p), _) => match find_sided(bindings, a.left, *p) {
            Some(to) => meet(types, bindings, to, b, less),
            None => meet_parameter(types, bindings, a.left, *p, b, fuel),
        },
        (_, TyData::Param(q)) => match find_sided(bindings, b.left, *q) {
            Some(to) => meet(types, bindings, a, to, less),
            None => meet_parameter(types, bindings, b.left, *q, a, fuel),
        },
        (
            TyData::Nominal { definition: left, arguments: left_arguments },
            TyData::Nominal { definition: right, arguments: right_arguments },
        ) => {
            *left == *right && same_length(left_arguments, right_arguments) && meet_lists(
                types,
                bindings,
                a.left,
                left_arguments,
                b.left,
                right_arguments,
                less,
            )
        },
        (TyData::Option(left), TyData::Option(right)) => {
            let first = Sided { left: a.left, ty: *left };
            let second = Sided { left: b.left, ty: *right };
            meet(types, bindings, first, second, less)
        },
        (TyData::TextMap(left), TyData::TextMap(right)) => {
            let first = Sided { left: a.left, ty: *left };
            let second = Sided { left: b.left, ty: *right };
            meet(types, bindings, first, second, less)
        },
        (
            TyData::Result { ok: left_ok, error: left_error },
            TyData::Result { ok: right_ok, error: right_error },
        ) => {
            let first = Sided { left: a.left, ty: *left_ok };
            let second = Sided { left: b.left, ty: *right_ok };
            let third = Sided { left: a.left, ty: *left_error };
            let fourth = Sided { left: b.left, ty: *right_error };
            meet(types, bindings, first, second, less) && meet(
                types,
                bindings,
                third,
                fourth,
                less,
            )
        },
        (TyData::Projection { self_ty: _, concept: _, associated_type: _ }, _) => true,
        (_, TyData::Projection { self_ty: _, concept: _, associated_type: _ }) => true,
        (left, right) => left.same(right),
    }
}

fn meet_lists(
    types: &TyInterner,
    bindings: &mut Chain<SidedBinding>,
    a_left: bool,
    a: &Chain<TyId>,
    b_left: bool,
    b: &Chain<TyId>,
    fuel: u32,
) -> (may: bool)
    requires
        types_wf(types@),
    ensures
        (*final(bindings), may) == lists_met(
            types@,
            *old(bindings),
            a_left,
            *a,
            b_left,
            *b,
            fuel as nat,
        ),
    decreases fuel, 1 + a.spec_len(),
{
    match (a, b) {
        (Chain::Link(first), Chain::Link(second)) => {
            let left = Sided { left: a_left, ty: first.item };
            let right = Sided { left: b_left, ty: second.item };
            meet_lists(types, bindings, a_left, &first.rest, b_left, &second.rest, fuel) && meet(
                types,
                bindings,
                left,
                right,
                fuel,
            )
        },
        _ => true,
    }
}

pub fn heads_can_meet(types: &TyInterner, left: TyId, right: TyId) -> (may: bool)
    requires
        types_wf(types@),
    ensures
        may == can_meet(types@, left, right),
{
    let mut bindings: Chain<SidedBinding> = Chain::new();
    let first = Sided { left: true, ty: left };
    let second = Sided { left: false, ty: right };
    meet(types, &mut bindings, first, second, HEAD_LIMIT)
}

} // verus!
