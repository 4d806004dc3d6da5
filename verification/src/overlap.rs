//! The heads of implementations that one type matches count as overlapping.

use vstd::prelude::*;

#[allow(unused_imports)]
use crate::chain::Chain;
#[allow(unused_imports)]
use crate::conformance::{
    bound_once, matched, matched_list, may_unify, unified_heads, unified_lists,
};
#[allow(unused_imports)]
use crate::heads::{
    lists_met, met, occurs, occurs_in_any, parameter_met, sided_lookup, Sided, SidedBinding,
    HEAD_LIMIT,
};
#[allow(unused_imports)]
use crate::ids::{GenericParamId, TyId};
#[allow(unused_imports)]
use crate::instances::{extends, lemma_matched_extends};
#[allow(unused_imports)]
use crate::substitution::{law_substitution_reads_last_insert, Substitution};
#[allow(unused_imports)]
use crate::ty::{all_below, law_one_name, parts_below, ty_data, types_wf, TyData};

verus! {

/// Read with the substitution, the pattern is the type, as far as matching
/// looks into patterns.
pub open spec fn reads_as(
    types: Seq<TyData>,
    pattern: TyId,
    actual: TyId,
    substitution: Substitution,
) -> bool
    decreases pattern.0, 1nat, 0nat,
    when types_wf(types)
{
    match (ty_data(types, pattern), ty_data(types, actual)) {
        (TyData::Param(parameter), _) => substitution.lookup(parameter) == Some(actual),
        (
            TyData::Nominal { definition: left, arguments: left_arguments },
            TyData::Nominal { definition: right, arguments: right_arguments },
        ) => left == right && left_arguments.spec_len() == right_arguments.spec_len()
            && lists_read_as(types, left_arguments, right_arguments, substitution, pattern.0),
        (TyData::Option(left), TyData::Option(right)) => reads_as(types, left, right, substitution),
        (TyData::TextMap(left), TyData::TextMap(right)) => reads_as(
            types,
            left,
            right,
            substitution,
        ),
        (
            TyData::Result { ok: left_ok, error: left_error },
            TyData::Result { ok: right_ok, error: right_error },
        ) => reads_as(types, left_ok, right_ok, substitution) && reads_as(
            types,
            left_error,
            right_error,
            substitution,
        ),
        (left, right) => left == right,
    }
}

pub open spec fn lists_read_as(
    types: Seq<TyData>,
    left: Chain<TyId>,
    right: Chain<TyId>,
    substitution: Substitution,
    limit: u32,
) -> bool
    decreases limit, 0nat, left.spec_len(),
    when types_wf(types) && all_below(left, limit as int)
{
    match (left, right) {
        (Chain::Link(a), Chain::Link(b)) => lists_read_as(
            types,
            a.rest,
            b.rest,
            substitution,
            limit,
        ) && reads_as(types, a.item, b.item, substitution),
        _ => true,
    }
}

proof fn lemma_match_reads(
    types: Seq<TyData>,
    pattern: TyId,
    actual: TyId,
    substitution: Substitution,
    large: Substitution,
)
    requires
        types_wf(types),
        matched(types, pattern, actual, substitution).1,
        extends(large, matched(types, pattern, actual, substitution).0),
    ensures
        reads_as(types, pattern, actual, large),
    decreases pattern.0, 1nat, 0nat,
{
    if pattern.0 < types.len() {
        assert(parts_below(types[pattern.0 as int], pattern.0 as int));
        match (ty_data(types, pattern), ty_data(types, actual)) {
            (TyData::Param(parameter), _) => {
                law_substitution_reads_last_insert(substitution, parameter, actual, parameter);
                let bound = bound_once(substitution, parameter, actual).0;
                assert(bound.lookup(parameter) == Some(actual));
            },
            (
                TyData::Nominal { arguments: left, .. },
                TyData::Nominal { arguments: right, .. },
            ) => lemma_match_list_reads(types, left, right, substitution, large, pattern.0),
            (TyData::Option(left), TyData::Option(right)) => lemma_match_reads(
                types,
                left,
                right,
                substitution,
                large,
            ),
            (TyData::TextMap(left), TyData::TextMap(right)) => lemma_match_reads(
                types,
                left,
                right,
                substitution,
                large,
            ),
            (
                TyData::Result { ok: left_ok, error: left_error },
                TyData::Result { ok: right_ok, error: right_error },
            ) => {
                let between = matched(types, left_ok, right_ok, substitution).0;
                lemma_matched_extends(types, left_error, right_error, between);
                lemma_match_reads(types, left_ok, right_ok, substitution, large);
                lemma_match_reads(types, left_error, right_error, between, large);
            },
            _ => {},
        }
    }
}

proof fn lemma_match_list_reads(
    types: Seq<TyData>,
    left: Chain<TyId>,
    right: Chain<TyId>,
    substitution: Substitution,
    large: Substitution,
    limit: u32,
)
    requires
        types_wf(types),
        all_below(left, limit as int),
        matched_list(types, left, right, substitution, limit).1,
        extends(large, matched_list(types, left, right, substitution, limit).0),
    ensures
        lists_read_as(types, left, right, large, limit),
    decreases limit, 0nat, left.spec_len(),
{
    if left is Link && right is Link {
        let a = left->0.item;
        let b = right->0.item;
        let before_left = left.without_last();
        let before_right = right.without_last();
        let between = matched_list(types, before_left, before_right, substitution, limit).0;
        lemma_matched_extends(types, a, b, between);
        lemma_match_list_reads(types, before_left, before_right, substitution, large, limit);
        lemma_match_reads(types, a, b, between, large);
    }
}

/// What the parameters of the two heads stand for.
struct Readings {
    left: Substitution,
    right: Substitution,
}

impl Readings {
    spec fn of(self, left: bool) -> Substitution {
        if left {
            self.left
        } else {
            self.right
        }
    }

    /// Read on its side, a type is `ty`.
    spec fn read(self, types: Seq<TyData>, term: Sided, ty: TyId) -> bool {
        reads_as(types, term.ty, ty, self.of(term.left))
    }

    /// What a parameter must be reads as what it stands for.
    spec fn solve(self, types: Seq<TyData>, bindings: Chain<SidedBinding>) -> bool {
        forall|left: bool, parameter: GenericParamId|
            match #[trigger] sided_lookup(bindings, left, parameter) {
                Some(to) => match self.of(left).lookup(parameter) {
                    Some(ty) => self.read(types, to, ty),
                    None => false,
                },
                None => true,
            }
    }
}

proof fn lemma_solve_more(
    types: Seq<TyData>,
    readings: Readings,
    bindings: Chain<SidedBinding>,
    left: bool,
    parameter: GenericParamId,
    to: Sided,
    ty: TyId,
)
    requires
        readings.solve(types, bindings),
        readings.of(left).lookup(parameter) == Some(ty),
        readings.read(types, to, ty),
    ensures
        readings.solve(types, bindings.pushed((SidedBinding { left, parameter, to }))),
{
    let after = bindings.pushed((SidedBinding { left, parameter, to }));
    assert forall|side: bool, any: GenericParamId|
        match #[trigger] sided_lookup(after, side, any) {
            Some(to) => match readings.of(side).lookup(any) {
                Some(ty) => readings.read(types, to, ty),
                None => false,
            },
            None => true,
        } by {
        assert(sided_lookup(bindings, side, any) is Some || sided_lookup(bindings, side, any)
            is None);
    }
}

/// A parameter that occurs in a type stands for a part of what the type reads
/// as, and for a proper one where the type is no parameter.
proof fn lemma_occurs_is_older(
    types: Seq<TyData>,
    readings: Readings,
    bindings: Chain<SidedBinding>,
    left: bool,
    parameter: GenericParamId,
    part: TyId,
    term: Sided,
    ty: TyId,
    fuel: nat,
)
    requires
        types_wf(types),
        readings.solve(types, bindings),
        readings.of(left).lookup(parameter) == Some(part),
        readings.read(types, term, ty),
        occurs(types, bindings, left, parameter, term, fuel),
    ensures
        part.0 <= ty.0,
        !(ty_data(types, term.ty) is Param) ==> part.0 < ty.0,
    decreases fuel, 0nat,
{
    let less = (fuel - 1) as nat;
    if term.ty.0 < types.len() {
        assert(parts_below(types[term.ty.0 as int], term.ty.0 as int));
    }
    if ty.0 < types.len() {
        assert(parts_below(types[ty.0 as int], ty.0 as int));
    }
    match (ty_data(types, term.ty), ty_data(types, ty)) {
        (TyData::Param(own), _) => {
            if !(term.left == left && own == parameter) {
                let to = sided_lookup(bindings, term.left, own)->0;
                lemma_occurs_is_older(
                    types,
                    readings,
                    bindings,
                    left,
                    parameter,
                    part,
                    to,
                    ty,
                    less,
                );
            }
        },
        (TyData::Nominal { arguments: a, .. }, TyData::Nominal { arguments: b, .. }) => {
            lemma_any_occurs_is_older(
                types,
                readings,
                bindings,
                left,
                parameter,
                part,
                term.left,
                a,
                b,
                term.ty.0,
                ty.0,
                less,
            );
        },
        (TyData::Option(a), TyData::Option(b)) => lemma_occurs_is_older(
            types,
            readings,
            bindings,
            left,
            parameter,
            part,
            Sided { left: term.left, ty: a },
            b,
            less,
        ),
        (TyData::TextMap(a), TyData::TextMap(b)) => lemma_occurs_is_older(
            types,
            readings,
            bindings,
            left,
            parameter,
            part,
            Sided { left: term.left, ty: a },
            b,
            less,
        ),
        (
            TyData::Result { ok: a, error: a_error },
            TyData::Result { ok: b, error: b_error },
        ) => {
            let first = Sided { left: term.left, ty: a };
            let second = Sided { left: term.left, ty: a_error };
            if occurs(types, bindings, left, parameter, first, less) {
                lemma_occurs_is_older(
                    types,
                    readings,
                    bindings,
                    left,
                    parameter,
                    part,
                    first,
                    b,
                    less,
                );
            } else {
                lemma_occurs_is_older(
                    types,
                    readings,
                    bindings,
                    left,
                    parameter,
                    part,
                    second,
                    b_error,
                    less,
                );
            }
        },
        _ => {},
    }
}

proof fn lemma_any_occurs_is_older(
    types: Seq<TyData>,
    readings: Readings,
    bindings: Chain<SidedBinding>,
    left: bool,
    parameter: GenericParamId,
    part: TyId,
    side: bool,
    list: Chain<TyId>,
    read: Chain<TyId>,
    limit: u32,
    read_limit: u32,
    fuel: nat,
)
    requires
        types_wf(types),
        all_below(list, limit as int),
        all_below(read, read_limit as int),
        list.spec_len() == read.spec_len(),
        readings.solve(types, bindings),
        readings.of(left).lookup(parameter) == Some(part),
        lists_read_as(types, list, read, readings.of(side), limit),
        occurs_in_any(types, bindings, left, parameter, side, list, fuel),
    ensures
        part.0 < read_limit,
    decreases fuel, 1 + list.spec_len(),
{
    if list is Link && read is Link {
        let a = list->0.item;
        let b = read->0.item;
        let rest = list.without_last();
        let read_rest = read.without_last();
        if occurs_in_any(types, bindings, left, parameter, side, rest, fuel) {
            lemma_any_occurs_is_older(
                types,
                readings,
                bindings,
                left,
                parameter,
                part,
                side,
                rest,
                read_rest,
                limit,
                read_limit,
                fuel,
            );
        } else {
            lemma_occurs_is_older(
                types,
                readings,
                bindings,
                left,
                parameter,
                part,
                Sided { left: side, ty: a },
                b,
                fuel,
            );
        }
    }
}

/// Two types that read as one type can be one type.
proof fn lemma_met(
    types: Seq<TyData>,
    readings: Readings,
    bindings: Chain<SidedBinding>,
    a: Sided,
    b: Sided,
    ty: TyId,
    fuel: nat,
)
    requires
        types_wf(types),
        readings.solve(types, bindings),
        readings.read(types, a, ty),
        readings.read(types, b, ty),
    ensures
        met(types, bindings, a, b, fuel).1,
        readings.solve(types, met(types, bindings, a, b, fuel).0),
    decreases fuel, 0nat,
{
    if fuel > 0 && a != b {
        let less = (fuel - 1) as nat;
        if a.ty.0 < types.len() {
            assert(parts_below(types[a.ty.0 as int], a.ty.0 as int));
        }
        if b.ty.0 < types.len() {
            assert(parts_below(types[b.ty.0 as int], b.ty.0 as int));
        }
        match (ty_data(types, a.ty), ty_data(types, b.ty), ty_data(types, ty)) {
            (TyData::Param(p), TyData::Param(q), _) => {
                match sided_lookup(bindings, a.left, p) {
                    Some(to) => lemma_met(types, readings, bindings, to, b, ty, less),
                    None => match sided_lookup(bindings, b.left, q) {
                        Some(to) => lemma_met(types, readings, bindings, a, to, ty, less),
                        None => lemma_solve_more(types, readings, bindings, a.left, p, b, ty),
                    },
                }
            },
            (TyData::Param(p), _, _) => {
                match sided_lookup(bindings, a.left, p) {
                    Some(to) => lemma_met(types, readings, bindings, to, b, ty, less),
                    None => lemma_parameter_met(types, readings, bindings, a.left, p, b, ty, fuel),
                }
            },
            (_, TyData::Param(q), _) => {
                match sided_lookup(bindings, b.left, q) {
                    Some(to) => lemma_met(types, readings, bindings, a, to, ty, less),
                    None => lemma_parameter_met(types, readings, bindings, b.left, q, a, ty, fuel),
                }
            },
            (
                TyData::Nominal { arguments: left, .. },
                TyData::Nominal { arguments: right, .. },
                TyData::Nominal { arguments: list, .. },
            ) => lemma_lists_met(
                types,
                readings,
                bindings,
                a.left,
                left,
                b.left,
                right,
                list,
                a.ty.0,
                b.ty.0,
                less,
            ),
            (TyData::Option(left), TyData::Option(right), TyData::Option(part)) => lemma_met(
                types,
                readings,
                bindings,
                Sided { left: a.left, ty: left },
                Sided { left: b.left, ty: right },
                part,
                less,
            ),
            (TyData::TextMap(left), TyData::TextMap(right), TyData::TextMap(part)) => lemma_met(
                types,
                readings,
                bindings,
                Sided { left: a.left, ty: left },
                Sided { left: b.left, ty: right },
                part,
                less,
            ),
            (
                TyData::Result { ok: left_ok, error: left_error },
                TyData::Result { ok: right_ok, error: right_error },
                TyData::Result { ok, error },
            ) => {
                let first = Sided { left: a.left, ty: left_ok };
                let second = Sided { left: b.left, ty: right_ok };
                lemma_met(types, readings, bindings, first, second, ok, less);
                let between = met(types, bindings, first, second, less).0;
                let third = Sided { left: a.left, ty: left_error };
                let fourth = Sided { left: b.left, ty: right_error };
                lemma_met(types, readings, between, third, fourth, error, less);
            },
            _ => {},
        }
    }
}

proof fn lemma_parameter_met(
    types: Seq<TyData>,
    readings: Readings,
    bindings: Chain<SidedBinding>,
    left: bool,
    parameter: GenericParamId,
    term: Sided,
    ty: TyId,
    fuel: nat,
)
    requires
        types_wf(types),
        readings.solve(types, bindings),
        readings.of(left).lookup(parameter) == Some(ty),
        readings.read(types, term, ty),
        !(ty_data(types, term.ty) is Param),
    ensures
        parameter_met(types, bindings, left, parameter, term, fuel).1,
        readings.solve(types, parameter_met(types, bindings, left, parameter, term, fuel).0),
{
    if occurs(types, bindings, left, parameter, term, fuel) {
        lemma_occurs_is_older(
            types,
            readings,
            bindings,
            left,
            parameter,
            ty,
            term,
            ty,
            fuel,
        );
    }
    lemma_solve_more(types, readings, bindings, left, parameter, term, ty);
}

proof fn lemma_lists_met(
    types: Seq<TyData>,
    readings: Readings,
    bindings: Chain<SidedBinding>,
    a_left: bool,
    a: Chain<TyId>,
    b_left: bool,
    b: Chain<TyId>,
    list: Chain<TyId>,
    a_limit: u32,
    b_limit: u32,
    fuel: nat,
)
    requires
        types_wf(types),
        all_below(a, a_limit as int),
        all_below(b, b_limit as int),
        a.spec_len() == list.spec_len(),
        b.spec_len() == list.spec_len(),
        readings.solve(types, bindings),
        lists_read_as(types, a, list, readings.of(a_left), a_limit),
        lists_read_as(types, b, list, readings.of(b_left), b_limit),
    ensures
        lists_met(types, bindings, a_left, a, b_left, b, fuel).1,
        readings.solve(types, lists_met(types, bindings, a_left, a, b_left, b, fuel).0),
    decreases fuel, 1 + a.spec_len(),
{
    if a is Link && b is Link && list is Link {
        let first = a->0.item;
        let second = b->0.item;
        let ty = list->0.item;
        let a_rest = a.without_last();
        let b_rest = b.without_last();
        lemma_lists_met(
            types,
            readings,
            bindings,
            a_left,
            a_rest,
            b_left,
            b_rest,
            list.without_last(),
            a_limit,
            b_limit,
            fuel,
        );
        let between = lists_met(types, bindings, a_left, a_rest, b_left, b_rest, fuel).0;
        lemma_met(
            types,
            readings,
            between,
            Sided { left: a_left, ty: first },
            Sided { left: b_left, ty: second },
            ty,
            fuel,
        );
    }
}

/// The overlap rule is conservative: two heads that some type matches both of
/// count as overlapping.
pub proof fn law_overlap_is_conservative(types: Seq<TyData>, left: TyId, right: TyId, ty: TyId)
    requires
        types_wf(types),
        matched(types, left, ty, Substitution::empty()).1,
        matched(types, right, ty, Substitution::empty()).1,
    ensures
        may_unify(types, left, right),
{
    let empty = Substitution::empty();
    let readings = Readings {
        left: matched(types, left, ty, empty).0,
        right: matched(types, right, ty, empty).0,
    };
    lemma_match_reads(types, left, ty, empty, readings.left);
    lemma_match_reads(types, right, ty, empty, readings.right);
    lemma_met(
        types,
        readings,
        Chain::Empty,
        Sided { left: true, ty: left },
        Sided { left: false, ty: right },
        ty,
        HEAD_LIMIT as nat,
    );
}

/// Every parameter that is bound stands for itself.
spec fn each_is_itself(types: Seq<TyData>, bindings: Substitution) -> bool {
    forall|parameter: GenericParamId|
        match #[trigger] bindings.lookup(parameter) {
            Some(ty) => ty.0 < types.len() && ty_data(types, ty) == TyData::Param(parameter),
            None => true,
        }
}

proof fn lemma_meets_itself(
    types: Seq<TyData>,
    ty: TyId,
    left_bindings: Substitution,
    right_bindings: Substitution,
)
    requires
        types_wf(types),
        each_is_itself(types, left_bindings),
    ensures
        unified_heads(types, ty, ty, left_bindings, right_bindings).2,
        each_is_itself(
            types,
            unified_heads(types, ty, ty, left_bindings, right_bindings).0,
        ),
    decreases ty.0, 1nat, 0nat,
{
    if ty.0 < types.len() {
        assert(parts_below(types[ty.0 as int], ty.0 as int));
        match ty_data(types, ty) {
            TyData::Param(parameter) => {
                match left_bindings.lookup(parameter) {
                    Some(previous) => law_one_name(types, previous, ty),
                    None => {
                        let after = left_bindings.inserted(parameter, ty);
                        assert forall|any: GenericParamId|
                            match #[trigger] after.lookup(any) {
                                Some(ty) => ty.0 < types.len() && ty_data(types, ty)
                                    == TyData::Param(any),
                                None => true,
                            } by {
                            law_substitution_reads_last_insert(left_bindings, parameter, ty, any);
                            assert(left_bindings.lookup(any) is Some || left_bindings.lookup(any)
                                is None);
                        }
                    },
                }
            },
            TyData::Nominal { arguments, .. } => lemma_list_meets_itself(
                types,
                arguments,
                left_bindings,
                right_bindings,
                ty.0,
            ),
            TyData::Option(part) => {
                lemma_meets_itself(types, part, left_bindings, right_bindings);
            },
            TyData::TextMap(part) => {
                lemma_meets_itself(types, part, left_bindings, right_bindings);
            },
            TyData::Result { ok, error } => {
                lemma_meets_itself(types, ok, left_bindings, right_bindings);
                let between = unified_heads(types, ok, ok, left_bindings, right_bindings);
                lemma_meets_itself(types, error, between.0, between.1);
            },
            _ => {},
        }
    }
}

proof fn lemma_list_meets_itself(
    types: Seq<TyData>,
    list: Chain<TyId>,
    left_bindings: Substitution,
    right_bindings: Substitution,
    limit: u32,
)
    requires
        types_wf(types),
        all_below(list, limit as int),
        each_is_itself(types, left_bindings),
    ensures
        unified_lists(types, list, list, left_bindings, right_bindings, limit).2,
        each_is_itself(
            types,
            unified_lists(types, list, list, left_bindings, right_bindings, limit).0,
        ),
    decreases limit, 0nat, list.spec_len(),
{
    if list is Link {
        let rest = list.without_last();
        let last = list->0.item;
        lemma_list_meets_itself(types, rest, left_bindings, right_bindings, limit);
        let between = unified_lists(types, rest, rest, left_bindings, right_bindings, limit);
        lemma_meets_itself(types, last, between.0, between.1);
    }
}

/// No parameter and no associated type stands in the head where heads are
/// looked into.
pub open spec fn fixed_head(types: Seq<TyData>, ty: TyId) -> bool
    decreases ty.0, 1nat, 0nat,
    when types_wf(types)
{
    match ty_data(types, ty) {
        TyData::Param(_) => false,
        TyData::Projection { self_ty: _, concept: _, associated_type: _ } => false,
        TyData::Nominal { definition: _, arguments } => fixed_heads(types, arguments, ty.0),
        TyData::Option(part) => fixed_head(types, part),
        TyData::TextMap(part) => fixed_head(types, part),
        TyData::Result { ok, error } => fixed_head(types, ok) && fixed_head(types, error),
        _ => true,
    }
}

pub open spec fn fixed_heads(types: Seq<TyData>, list: Chain<TyId>, limit: u32) -> bool
    decreases limit, 0nat, list.spec_len(),
    when types_wf(types) && all_below(list, limit as int)
{
    match list {
        Chain::Empty => true,
        Chain::Link(link) => fixed_heads(types, link.rest, limit) && fixed_head(types, link.item),
    }
}

/// Heads without parameters agree only where they are equal.
proof fn lemma_fixed_heads_agree(
    types: Seq<TyData>,
    left: TyId,
    right: TyId,
    left_bindings: Substitution,
    right_bindings: Substitution,
    bindings: Chain<SidedBinding>,
    fuel: nat,
)
    requires
        types_wf(types),
        left.0 < types.len(),
        right.0 < types.len(),
        fixed_head(types, left),
        fixed_head(types, right),
        left.0 < fuel,
    ensures
        unified_heads(types, left, right, left_bindings, right_bindings).2 ==> left == right,
        met(
            types,
            bindings,
            (Sided { left: true, ty: left }),
            (Sided { left: false, ty: right }),
            fuel,
        ).1 ==> left == right,
    decreases left.0, 1nat, 0nat,
{
    assert(parts_below(types[left.0 as int], left.0 as int));
    assert(parts_below(types[right.0 as int], right.0 as int));
    law_one_name(types, left, right);
    let less = (fuel - 1) as nat;
    match (ty_data(types, left), ty_data(types, right)) {
        (TyData::Nominal { arguments: a, .. }, TyData::Nominal { arguments: b, .. }) => {
            if a.spec_len() == b.spec_len() {
                lemma_fixed_lists_agree(
                    types,
                    a,
                    b,
                    left_bindings,
                    right_bindings,
                    bindings,
                    left.0,
                    right.0,
                    less,
                );
            }
        },
        (TyData::Option(a), TyData::Option(b)) => lemma_fixed_heads_agree(
            types,
            a,
            b,
            left_bindings,
            right_bindings,
            bindings,
            less,
        ),
        (TyData::TextMap(a), TyData::TextMap(b)) => lemma_fixed_heads_agree(
            types,
            a,
            b,
            left_bindings,
            right_bindings,
            bindings,
            less,
        ),
        (
            TyData::Result { ok: a, error: a_error },
            TyData::Result { ok: b, error: b_error },
        ) => {
            lemma_fixed_heads_agree(
                types,
                a,
                b,
                left_bindings,
                right_bindings,
                bindings,
                less,
            );
            let first = Sided { left: true, ty: a };
            let second = Sided { left: false, ty: b };
            let between = unified_heads(types, a, b, left_bindings, right_bindings);
            lemma_fixed_heads_agree(
                types,
                a_error,
                b_error,
                between.0,
                between.1,
                met(types, bindings, first, second, less).0,
                less,
            );
        },
        _ => {},
    }
}

proof fn lemma_fixed_lists_agree(
    types: Seq<TyData>,
    left: Chain<TyId>,
    right: Chain<TyId>,
    left_bindings: Substitution,
    right_bindings: Substitution,
    bindings: Chain<SidedBinding>,
    limit: u32,
    right_limit: u32,
    fuel: nat,
)
    requires
        types_wf(types),
        limit <= types.len(),
        right_limit <= types.len(),
        limit <= fuel,
        all_below(left, limit as int),
        all_below(right, right_limit as int),
        left.spec_len() == right.spec_len(),
        fixed_heads(types, left, limit),
        fixed_heads(types, right, right_limit),
    ensures
        unified_lists(types, left, right, left_bindings, right_bindings, limit).2 ==> left == right,
        lists_met(types, bindings, true, left, false, right, fuel).1 ==> left == right,
    decreases limit, 0nat, left.spec_len(),
{
    if left is Link && right is Link {
        let a = left->0.item;
        let b = right->0.item;
        let before_left = left.without_last();
        let before_right = right.without_last();
        lemma_fixed_lists_agree(
            types,
            before_left,
            before_right,
            left_bindings,
            right_bindings,
            bindings,
            limit,
            right_limit,
            fuel,
        );
        let between = unified_lists(
            types,
            before_left,
            before_right,
            left_bindings,
            right_bindings,
            limit,
        );
        lemma_fixed_heads_agree(
            types,
            a,
            b,
            between.0,
            between.1,
            lists_met(types, bindings, true, before_left, false, before_right, fuel).0,
            fuel,
        );
        assert(left == before_left.pushed(a));
        assert(right == before_right.pushed(b));
    }
}

/// A head overlaps with itself. A parameter and an associated type overlap with
/// everything. Heads in which neither stands overlap only with themselves.
pub proof fn law_overlap_of_heads(types: Seq<TyData>, left: TyId, right: TyId)
    requires
        types_wf(types),
    ensures
        may_unify(types, left, left),
        ty_data(types, left) is Param || ty_data(types, left) is Projection || ty_data(
            types,
            right,
        ) is Param || ty_data(types, right) is Projection ==> may_unify(types, left, right),
        left.0 < types.len() && right.0 < types.len() && fixed_head(types, left) && fixed_head(
            types,
            right,
        ) ==> (may_unify(types, left, right) <==> left == right),
{
    let empty = Substitution::empty();
    assert(each_is_itself(types, empty));
    lemma_meets_itself(types, left, empty, empty);
    if left.0 < types.len() && right.0 < types.len() && fixed_head(types, left) && fixed_head(
        types,
        right,
    ) {
        lemma_fixed_heads_agree(
            types,
            left,
            right,
            empty,
            empty,
            Chain::Empty,
            HEAD_LIMIT as nat,
        );
    }
}

} // verus!
