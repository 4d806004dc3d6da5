//! That a match which is taken to cover every value does so.

use vstd::prelude::*;

#[allow(unused_imports)]
use crate::chain::Chain;
#[allow(unused_imports)]
use crate::growth::{grows, lemma_substituted};
#[allow(unused_imports)]
use crate::hir::{literals_alike, DefinitionKind, Literal};
#[allow(unused_imports)]
use crate::ids::{DefId, TyId};
#[allow(unused_imports)]
use crate::patterns::{
    all_substituted, any_useful, constructors_of, default_rows, one, payload_of, specialized_row,
    specialized_rows, stacked, useful, user_constructors, variant_added, with_wildcards,
    CheckedPattern, Constructor, PatternHead, PatternVariant, PATTERN_DEPTH_LIMIT,
};
#[allow(unused_imports)]
use crate::semantics::Signature;
#[allow(unused_imports)]
use crate::state::Context;
#[allow(unused_imports)]
use crate::substitution::Substitution;
#[allow(unused_imports)]
use crate::ty::{ty_data, types_wf, TyData};
#[allow(unused_imports)]
use crate::unify::paired;

verus! {

/// A value as patterns see it. A value that no constructor of a finite type
/// makes is opaque.
pub enum PatternValue {
    Literal(Literal),
    Variant(PatternVariant, Chain<PatternValue>),
    Opaque(int),
}

/// The pattern matches the value.
pub open spec fn matches(pattern: CheckedPattern, value: PatternValue) -> bool
    decreases pattern,
{
    match pattern {
        CheckedPattern::Invalid => false,
        CheckedPattern::Wildcard => true,
        CheckedPattern::Literal(literal) => match value {
            PatternValue::Literal(actual) => literals_alike(actual, literal),
            _ => false,
        },
        CheckedPattern::Variant(variant, payload) => match value {
            PatternValue::Variant(actual, parts) => variant == actual && row_matches(
                payload,
                parts,
            ),
            _ => false,
        },
    }
}

/// Each pattern of the row matches its value, and there are as many of both.
pub open spec fn row_matches(row: Chain<CheckedPattern>, values: Chain<PatternValue>) -> bool
    decreases row,
{
    match (row, values) {
        (Chain::Empty, Chain::Empty) => true,
        (Chain::Link(patterns), Chain::Link(rest)) => row_matches(patterns.rest, rest.rest)
            && matches(patterns.item, rest.item),
        _ => false,
    }
}

/// One of the rows matches the values.
pub open spec fn any_row_matches(
    rows: Chain<Chain<CheckedPattern>>,
    values: Chain<PatternValue>,
) -> bool
    decreases rows,
{
    match rows {
        Chain::Empty => false,
        Chain::Link(link) => any_row_matches(link.rest, values) || row_matches(link.item, values),
    }
}

/// Every row has `width` patterns.
pub open spec fn rows_have(rows: Chain<Chain<CheckedPattern>>, width: nat) -> bool
    decreases rows,
{
    match rows {
        Chain::Empty => true,
        Chain::Link(link) => rows_have(link.rest, width) && link.item.spec_len() == width,
    }
}

/// The values have the types, one by one.
pub open spec fn all_typed(
    typing: spec_fn(TyId, PatternValue) -> bool,
    types: Chain<TyId>,
    values: Chain<PatternValue>,
) -> bool
    decreases types,
{
    match (types, values) {
        (Chain::Empty, Chain::Empty) => true,
        (Chain::Link(a), Chain::Link(b)) => all_typed(typing, a.rest, b.rest) && typing(
            a.item,
            b.item,
        ),
        _ => false,
    }
}

/// The value is made by the constructor.
pub open spec fn made_by(value: PatternValue, head: PatternHead) -> bool {
    match (value, head) {
        (PatternValue::Literal(actual), PatternHead::Literal(wanted)) => literals_alike(
            actual,
            wanted,
        ),
        (PatternValue::Variant(actual, _), PatternHead::Variant(wanted)) => actual == wanted,
        _ => false,
    }
}

pub open spec fn made_by_one(value: PatternValue, list: Chain<Constructor>) -> bool
    decreases list,
{
    match list {
        Chain::Empty => false,
        Chain::Link(link) => made_by_one(value, link.rest) || made_by(value, link.item.head),
    }
}

/// A notion of which values a type has, over the types of `all`: a value of a
/// type with finitely many constructors is made by one of them, and the parts
/// of a value have the types that its constructor gives them.
pub open spec fn respects(
    cx: &Context,
    all: Seq<TyData>,
    typing: spec_fn(TyId, PatternValue) -> bool,
) -> bool {
    &&& forall|types: Seq<TyData>, ty: TyId, value: PatternValue|
        types_wf(types) && grows(types, all) && #[trigger] typing(ty, value) ==> match (
            #[trigger] constructors_of(cx, types, ty)
        ).1 {
            Some(list) => made_by_one(value, list),
            None => true,
        }
    &&& forall|
        types: Seq<TyData>,
        ty: TyId,
        variant: PatternVariant,
        parts: Chain<PatternValue>,
    |
        types_wf(types) && grows(types, all) && grows(
            (#[trigger] payload_of(cx, types, variant, ty)).0,
            all,
        ) && #[trigger] typing(ty, PatternValue::Variant(variant, parts)) ==> all_typed(
            typing,
            payload_of(cx, types, variant, ty).1,
            parts,
        )
}

proof fn lemma_all_substituted(types: Seq<TyData>, list: Chain<TyId>, substitution: Substitution)
    requires
        types_wf(types),
    ensures
        types_wf(all_substituted(types, list, substitution).0),
        grows(types, all_substituted(types, list, substitution).0),
    decreases list,
{
    if list is Link {
        let rest = list.without_last();
        let last = list->0.item;
        lemma_all_substituted(types, rest, substitution);
        lemma_substituted(all_substituted(types, rest, substitution).0, last, substitution);
    }
}

proof fn lemma_payload(cx: &Context, types: Seq<TyData>, variant: PatternVariant, ty: TyId)
    requires
        types_wf(types),
    ensures
        types_wf(payload_of(cx, types, variant, ty).0),
        grows(types, payload_of(cx, types, variant, ty).0),
{
    match (variant, ty_data(types, ty)) {
        (PatternVariant::User(variant), TyData::Nominal { definition, arguments }) =>
            match cx.signature_of(variant) {
                Some(Signature::Variant { owner: _, payload }) => lemma_all_substituted(
                    types,
                    payload,
                    paired(
                        cx.program.type_params_of(definition),
                        arguments,
                        Substitution::empty(),
                    ),
                ),
                _ => {},
            },
        _ => {},
    }
}

// The constructors of a type.

/// The parts of a value that the constructor makes have the types that it says.
spec fn fits(
    typing: spec_fn(TyId, PatternValue) -> bool,
    constructor: Constructor,
    ty: TyId,
) -> bool {
    match constructor.head {
        PatternHead::Literal(_) => constructor.parts is Empty,
        PatternHead::Variant(variant) => forall|parts: Chain<PatternValue>|
            #[trigger] typing(ty, PatternValue::Variant(variant, parts)) ==> all_typed(
                typing,
                constructor.parts,
                parts,
            ),
    }
}

spec fn all_fit(
    typing: spec_fn(TyId, PatternValue) -> bool,
    list: Chain<Constructor>,
    ty: TyId,
) -> bool
    decreases list,
{
    match list {
        Chain::Empty => true,
        Chain::Link(link) => all_fit(typing, link.rest, ty) && fits(typing, link.item, ty),
    }
}

proof fn lemma_variant_added(
    cx: &Context,
    all: Seq<TyData>,
    typing: spec_fn(TyId, PatternValue) -> bool,
    types: Seq<TyData>,
    list: Chain<Constructor>,
    variant: PatternVariant,
    ty: TyId,
)
    requires
        types_wf(types),
    ensures
        types_wf(variant_added(cx, types, list, variant, ty).0),
        grows(types, variant_added(cx, types, list, variant, ty).0),
        respects(cx, all, typing) && grows(variant_added(cx, types, list, variant, ty).0, all)
            && all_fit(typing, list, ty) ==> all_fit(
            typing,
            variant_added(cx, types, list, variant, ty).1,
            ty,
        ),
{
    lemma_payload(cx, types, variant, ty);
}

proof fn lemma_user_constructors(
    cx: &Context,
    all: Seq<TyData>,
    typing: spec_fn(TyId, PatternValue) -> bool,
    types: Seq<TyData>,
    variants: Chain<DefId>,
    ty: TyId,
)
    requires
        types_wf(types),
    ensures
        types_wf(user_constructors(cx, types, variants, ty).0),
        grows(types, user_constructors(cx, types, variants, ty).0),
        respects(cx, all, typing) && grows(user_constructors(cx, types, variants, ty).0, all)
            ==> all_fit(typing, user_constructors(cx, types, variants, ty).1, ty),
    decreases variants,
{
    if variants is Link {
        let rest = variants.without_last();
        let last = variants->0.item;
        lemma_user_constructors(cx, all, typing, types, rest, ty);
        let (between, list) = user_constructors(cx, types, rest, ty);
        lemma_variant_added(cx, all, typing, between, list, PatternVariant::User(last), ty);
    }
}

proof fn lemma_constructors(
    cx: &Context,
    all: Seq<TyData>,
    typing: spec_fn(TyId, PatternValue) -> bool,
    types: Seq<TyData>,
    ty: TyId,
)
    requires
        types_wf(types),
    ensures
        types_wf(constructors_of(cx, types, ty).0),
        grows(types, constructors_of(cx, types, ty).0),
        respects(cx, all, typing) && grows(constructors_of(cx, types, ty).0, all)
            ==> match constructors_of(cx, types, ty).1 {
            Some(list) => all_fit(typing, list, ty),
            None => true,
        },
{
    reveal_with_fuel(all_fit, 4);
    let none = Chain::<Constructor>::Empty;
    match ty_data(types, ty) {
        TyData::Option(_) => {
            lemma_variant_added(cx, all, typing, types, none, PatternVariant::OptionNone, ty);
            let (a, list) = variant_added(cx, types, none, PatternVariant::OptionNone, ty);
            lemma_variant_added(cx, all, typing, a, list, PatternVariant::OptionSome, ty);
        },
        TyData::Result { .. } => {
            lemma_variant_added(cx, all, typing, types, none, PatternVariant::ResultOk, ty);
            let (a, list) = variant_added(cx, types, none, PatternVariant::ResultOk, ty);
            lemma_variant_added(cx, all, typing, a, list, PatternVariant::ResultErr, ty);
        },
        TyData::TaskOutcome(_) => {
            lemma_variant_added(cx, all, typing, types, none, PatternVariant::TaskCompleted, ty);
            let (a, list) = variant_added(cx, types, none, PatternVariant::TaskCompleted, ty);
            lemma_variant_added(cx, all, typing, a, list, PatternVariant::TaskFaulted, ty);
            let (b, list) = variant_added(cx, a, list, PatternVariant::TaskFaulted, ty);
            lemma_variant_added(cx, all, typing, b, list, PatternVariant::TaskCancelled, ty);
        },
        TyData::Nominal { definition, .. } => match cx.program.kind_of(definition) {
            Some(DefinitionKind::Enum { generic_params: _, variants }) => {
                lemma_user_constructors(cx, all, typing, types, variants, ty);
            },
            _ => {},
        },
        _ => {},
    }
}

proof fn lemma_useful_grows(
    cx: &Context,
    types: Seq<TyData>,
    expected: Chain<TyId>,
    rows: Chain<Chain<CheckedPattern>>,
    candidate: Chain<CheckedPattern>,
    depth: u16,
)
    requires
        types_wf(types),
    ensures
        types_wf(useful(cx, types, expected, rows, candidate, depth).0),
        grows(types, useful(cx, types, expected, rows, candidate, depth).0),
    decreases PATTERN_DEPTH_LIMIT - depth, 0nat, 0nat,
{
    if expected is Link && candidate is Link && depth < PATTERN_DEPTH_LIMIT {
        let next = (depth + 1) as u16;
        let wanted = expected->0.item;
        let types_left = expected.without_last();
        let patterns_left = candidate.without_last();
        match candidate->0.item {
            CheckedPattern::Invalid => {},
            CheckedPattern::Wildcard => {
                lemma_constructors(cx, types, |ty: TyId, value: PatternValue| false, types, wanted);
                match constructors_of(cx, types, wanted) {
                    (between, Some(list)) => lemma_any_useful_grows(
                        cx,
                        between,
                        list,
                        types_left,
                        rows,
                        patterns_left,
                        next,
                    ),
                    (between, None) => lemma_useful_grows(
                        cx,
                        between,
                        types_left,
                        default_rows(rows),
                        patterns_left,
                        next,
                    ),
                }
            },
            CheckedPattern::Literal(literal) => lemma_useful_grows(
                cx,
                types,
                types_left,
                specialized_rows(rows, PatternHead::Literal(literal), Chain::Empty),
                patterns_left,
                next,
            ),
            CheckedPattern::Variant(variant, payload) => {
                lemma_payload(cx, types, variant, wanted);
                let (between, parts) = payload_of(cx, types, variant, wanted);
                if parts.spec_len() == payload.spec_len() {
                    lemma_useful_grows(
                        cx,
                        between,
                        stacked(types_left, parts),
                        specialized_rows(rows, PatternHead::Variant(variant), parts),
                        stacked(patterns_left, payload),
                        next,
                    );
                }
            },
        }
    }
}

proof fn lemma_any_useful_grows(
    cx: &Context,
    types: Seq<TyData>,
    constructors: Chain<Constructor>,
    expected: Chain<TyId>,
    rows: Chain<Chain<CheckedPattern>>,
    candidate: Chain<CheckedPattern>,
    depth: u16,
)
    requires
        types_wf(types),
    ensures
        types_wf(any_useful(cx, types, constructors, expected, rows, candidate, depth).0),
        grows(types, any_useful(cx, types, constructors, expected, rows, candidate, depth).0),
    decreases PATTERN_DEPTH_LIMIT - depth, 1nat, constructors.spec_len(),
{
    if constructors is Link {
        let rest = constructors.without_last();
        let last = constructors->0.item;
        lemma_any_useful_grows(cx, types, rest, expected, rows, candidate, depth);
        let (between, found) = any_useful(cx, types, rest, expected, rows, candidate, depth);
        if !found {
            lemma_useful_grows(
                cx,
                between,
                stacked(expected, last.parts),
                specialized_rows(rows, last.head, last.parts),
                with_wildcards(candidate, last.parts),
                depth,
            );
        }
    }
}

// Rows and the values that they match.

proof fn lemma_stacked_len<T>(row: Chain<T>, items: Chain<T>)
    ensures
        stacked(row, items).spec_len() == row.spec_len() + items.spec_len(),
    decreases items,
{
    if items is Link {
        let last = items->0.item;
        lemma_stacked_len(row.pushed(last), items.without_last());
    }
}

proof fn lemma_wildcards_len(row: Chain<CheckedPattern>, parts: Chain<TyId>)
    ensures
        with_wildcards(row, parts).spec_len() == row.spec_len() + parts.spec_len(),
    decreases parts,
{
    if parts is Link {
        lemma_wildcards_len(row.pushed(CheckedPattern::Wildcard), parts.without_last());
    }
}

proof fn lemma_stacked_matches(
    row: Chain<CheckedPattern>,
    payload: Chain<CheckedPattern>,
    values: Chain<PatternValue>,
    parts: Chain<PatternValue>,
)
    requires
        payload.spec_len() == parts.spec_len(),
    ensures
        row_matches(stacked(row, payload), stacked(values, parts)) <==> row_matches(row, values)
            && row_matches(payload, parts),
    decreases payload,
{
    if payload is Link && parts is Link {
        let pattern = payload->0.item;
        let part = parts->0.item;
        lemma_stacked_matches(
            row.pushed(pattern),
            payload.without_last(),
            values.pushed(part),
            parts.without_last(),
        );
        assert(row_matches(row.pushed(pattern), values.pushed(part)) <==> row_matches(row, values)
            && matches(pattern, part));
    }
}

proof fn lemma_wildcards_match(
    row: Chain<CheckedPattern>,
    types: Chain<TyId>,
    values: Chain<PatternValue>,
    parts: Chain<PatternValue>,
)
    requires
        types.spec_len() == parts.spec_len(),
    ensures
        row_matches(with_wildcards(row, types), stacked(values, parts)) <==> row_matches(
            row,
            values,
        ),
    decreases types,
{
    if types is Link && parts is Link {
        let part = parts->0.item;
        lemma_wildcards_match(
            row.pushed(CheckedPattern::Wildcard),
            types.without_last(),
            values.pushed(part),
            parts.without_last(),
        );
        assert(matches(CheckedPattern::Wildcard, part));
        assert(row_matches(row.pushed(CheckedPattern::Wildcard), values.pushed(part))
            <==> row_matches(row, values));
    }
}

proof fn lemma_stacked_typed(
    typing: spec_fn(TyId, PatternValue) -> bool,
    types: Chain<TyId>,
    parts: Chain<TyId>,
    values: Chain<PatternValue>,
    items: Chain<PatternValue>,
)
    requires
        all_typed(typing, types, values),
        all_typed(typing, parts, items),
    ensures
        all_typed(typing, stacked(types, parts), stacked(values, items)),
    decreases parts,
{
    if parts is Link && items is Link {
        let ty = parts->0.item;
        let item = items->0.item;
        lemma_stacked_typed(
            typing,
            types.pushed(ty),
            parts.without_last(),
            values.pushed(item),
            items.without_last(),
        );
    }
}

proof fn lemma_typed_len(
    typing: spec_fn(TyId, PatternValue) -> bool,
    types: Chain<TyId>,
    values: Chain<PatternValue>,
)
    requires
        all_typed(typing, types, values),
    ensures
        types.spec_len() == values.spec_len(),
    decreases types,
{
    if types is Link && values is Link {
        lemma_typed_len(typing, types.without_last(), values.without_last());
    }
}

proof fn lemma_matching_len(row: Chain<CheckedPattern>, values: Chain<PatternValue>)
    requires
        row_matches(row, values),
    ensures
        row.spec_len() == values.spec_len(),
    decreases row,
{
    if row is Link && values is Link {
        lemma_matching_len(row.without_last(), values.without_last());
    }
}

/// The parts of a value.
pub open spec fn parts_of(value: PatternValue) -> Chain<PatternValue> {
    match value {
        PatternValue::Variant(_, parts) => parts,
        _ => Chain::Empty,
    }
}

proof fn lemma_specialized_rows_have(
    rows: Chain<Chain<CheckedPattern>>,
    head: PatternHead,
    parts: Chain<TyId>,
    width: nat,
)
    requires
        rows_have(rows, width + 1),
        head is Literal ==> parts is Empty,
    ensures
        rows_have(specialized_rows(rows, head, parts), width + parts.spec_len()),
    decreases rows,
{
    if rows is Link {
        lemma_specialized_rows_have(rows.without_last(), head, parts, width);
        let row = rows->0.item;
        if row is Link {
            let left = row.without_last();
            lemma_wildcards_len(left, parts);
            match row->0.item {
                CheckedPattern::Variant(_, payload) => lemma_stacked_len(left, payload),
                _ => {},
            }
        }
    }
}

proof fn lemma_default_rows_have(rows: Chain<Chain<CheckedPattern>>, width: nat)
    requires
        rows_have(rows, width + 1),
    ensures
        rows_have(default_rows(rows), width),
    decreases rows,
{
    if rows is Link {
        lemma_default_rows_have(rows.without_last(), width);
    }
}

proof fn lemma_default_rows(
    rows: Chain<Chain<CheckedPattern>>,
    values: Chain<PatternValue>,
    value: PatternValue,
)
    requires
        any_row_matches(default_rows(rows), values),
    ensures
        any_row_matches(rows, values.pushed(value)),
    decreases rows,
{
    if rows is Link {
        if any_row_matches(default_rows(rows.without_last()), values) {
            lemma_default_rows(rows.without_last(), values, value);
        } else {
            let row = rows->0.item;
            assert(matches(CheckedPattern::Wildcard, value));
            assert(row_matches(row, values.pushed(value)));
        }
    }
}

proof fn lemma_specialized_rows(
    rows: Chain<Chain<CheckedPattern>>,
    head: PatternHead,
    types: Chain<TyId>,
    values: Chain<PatternValue>,
    value: PatternValue,
)
    requires
        made_by(value, head),
        types.spec_len() == parts_of(value).spec_len(),
        any_row_matches(specialized_rows(rows, head, types), stacked(values, parts_of(value))),
    ensures
        any_row_matches(rows, values.pushed(value)),
    decreases rows,
{
    if rows is Link {
        let rest = rows.without_last();
        let row = rows->0.item;
        let parts = parts_of(value);
        if any_row_matches(specialized_rows(rest, head, types), stacked(values, parts)) {
            lemma_specialized_rows(rest, head, types, values, value);
        } else {
            let left = row.without_last();
            lemma_wildcards_match(left, types, values, parts);
            match row->0.item {
                CheckedPattern::Variant(_, payload) => {
                    if payload.spec_len() == parts.spec_len() {
                        lemma_stacked_matches(left, payload, values, parts);
                    }
                },
                _ => {},
            }
            assert(specialized_row(row, head, types) is Some);
            assert(matches(row->0.item, value));
            assert(row_matches(row, values.pushed(value)));
        }
    }
}

proof fn lemma_not_useful(
    cx: &Context,
    all: Seq<TyData>,
    typing: spec_fn(TyId, PatternValue) -> bool,
    types: Seq<TyData>,
    expected: Chain<TyId>,
    rows: Chain<Chain<CheckedPattern>>,
    candidate: Chain<CheckedPattern>,
    values: Chain<PatternValue>,
    depth: u16,
)
    requires
        types_wf(types),
        respects(cx, all, typing),
        grows(useful(cx, types, expected, rows, candidate, depth).0, all),
        !useful(cx, types, expected, rows, candidate, depth).1,
        rows_have(rows, expected.spec_len()),
        all_typed(typing, expected, values),
        row_matches(candidate, values),
    ensures
        any_row_matches(rows, values),
    decreases PATTERN_DEPTH_LIMIT - depth, 0nat, 0nat,
{
    lemma_typed_len(typing, expected, values);
    lemma_matching_len(candidate, values);
    if expected is Empty {
        assert(rows is Link);
        assert(row_matches(rows->0.item, values));
    } else {
        let next = (depth + 1) as u16;
        let wanted = expected->0.item;
        let types_left = expected.without_last();
        let patterns_left = candidate.without_last();
        let values_left = values.without_last();
        let value = values->0.item;
        assert(values == values_left.pushed(value));
        lemma_useful_grows(cx, types, expected, rows, candidate, depth);
        assert(matches(candidate->0.item, value));
        match candidate->0.item {
            CheckedPattern::Invalid => {},
            CheckedPattern::Wildcard => {
                lemma_constructors(cx, all, typing, types, wanted);
                match constructors_of(cx, types, wanted) {
                    (between, Some(list)) => {
                        lemma_any_useful_grows(
                            cx,
                            between,
                            list,
                            types_left,
                            rows,
                            patterns_left,
                            next,
                        );
                        assert(typing(wanted, value));
                        lemma_none_useful(
                            cx,
                            all,
                            typing,
                            between,
                            list,
                            wanted,
                            types_left,
                            rows,
                            patterns_left,
                            values_left,
                            value,
                            next,
                        );
                    },
                    (between, None) => {
                        lemma_default_rows_have(rows, types_left.spec_len());
                        lemma_not_useful(
                            cx,
                            all,
                            typing,
                            between,
                            types_left,
                            default_rows(rows),
                            patterns_left,
                            values_left,
                            next,
                        );
                        lemma_default_rows(rows, values_left, value);
                    },
                }
            },
            CheckedPattern::Literal(literal) => {
                let head = PatternHead::Literal(literal);
                let none = Chain::<TyId>::Empty;
                lemma_specialized_rows_have(rows, head, none, types_left.spec_len());
                lemma_not_useful(
                    cx,
                    all,
                    typing,
                    types,
                    types_left,
                    specialized_rows(rows, head, none),
                    patterns_left,
                    values_left,
                    next,
                );
                lemma_specialized_rows(rows, head, none, values_left, value);
            },
            CheckedPattern::Variant(variant, payload) => {
                let head = PatternHead::Variant(variant);
                let parts = parts_of(value);
                assert(value == PatternValue::Variant(variant, parts));
                lemma_payload(cx, types, variant, wanted);
                let (between, part_types) = payload_of(cx, types, variant, wanted);
                lemma_useful_grows(
                    cx,
                    between,
                    stacked(types_left, part_types),
                    specialized_rows(rows, head, part_types),
                    stacked(patterns_left, payload),
                    next,
                );
                assert(typing(wanted, PatternValue::Variant(variant, parts)));
                assert(all_typed(typing, part_types, parts));
                lemma_typed_len(typing, part_types, parts);
                lemma_stacked_typed(typing, types_left, part_types, values_left, parts);
                lemma_stacked_matches(patterns_left, payload, values_left, parts);
                lemma_stacked_len(types_left, part_types);
                lemma_specialized_rows_have(rows, head, part_types, types_left.spec_len());
                lemma_not_useful(
                    cx,
                    all,
                    typing,
                    between,
                    stacked(types_left, part_types),
                    specialized_rows(rows, head, part_types),
                    stacked(patterns_left, payload),
                    stacked(values_left, parts),
                    next,
                );
                lemma_specialized_rows(rows, head, part_types, values_left, value);
            },
        }
    }
}

proof fn lemma_none_useful(
    cx: &Context,
    all: Seq<TyData>,
    typing: spec_fn(TyId, PatternValue) -> bool,
    types: Seq<TyData>,
    constructors: Chain<Constructor>,
    wanted: TyId,
    expected: Chain<TyId>,
    rows: Chain<Chain<CheckedPattern>>,
    candidate: Chain<CheckedPattern>,
    values: Chain<PatternValue>,
    value: PatternValue,
    depth: u16,
)
    requires
        types_wf(types),
        respects(cx, all, typing),
        grows(any_useful(cx, types, constructors, expected, rows, candidate, depth).0, all),
        !any_useful(cx, types, constructors, expected, rows, candidate, depth).1,
        all_fit(typing, constructors, wanted),
        made_by_one(value, constructors),
        typing(wanted, value),
        rows_have(rows, expected.spec_len() + 1),
        all_typed(typing, expected, values),
        row_matches(candidate, values),
    ensures
        any_row_matches(rows, values.pushed(value)),
    decreases PATTERN_DEPTH_LIMIT - depth, 1nat, constructors.spec_len(),
{
    let rest = constructors.without_last();
    let last = constructors->0.item;
    lemma_any_useful_grows(cx, types, rest, expected, rows, candidate, depth);
    let (between, found) = any_useful(cx, types, rest, expected, rows, candidate, depth);
    assert(!found);
    let inner_types = stacked(expected, last.parts);
    let inner_rows = specialized_rows(rows, last.head, last.parts);
    let inner_candidate = with_wildcards(candidate, last.parts);
    lemma_useful_grows(cx, between, inner_types, inner_rows, inner_candidate, depth);
    if made_by_one(value, rest) {
        lemma_none_useful(
            cx,
            all,
            typing,
            types,
            rest,
            wanted,
            expected,
            rows,
            candidate,
            values,
            value,
            depth,
        );
    } else {
        let parts = parts_of(value);
        assert(made_by(value, last.head));
        assert(fits(typing, last, wanted));
        match value {
            PatternValue::Variant(variant, inner) => {
                assert(typing(wanted, PatternValue::Variant(variant, inner)));
            },
            _ => {},
        }
        assert(all_typed(typing, last.parts, parts));
        lemma_typed_len(typing, last.parts, parts);
        lemma_stacked_typed(typing, expected, last.parts, values, parts);
        lemma_wildcards_match(candidate, last.parts, values, parts);
        lemma_stacked_len(expected, last.parts);
        lemma_specialized_rows_have(rows, last.head, last.parts, expected.spec_len());
        lemma_not_useful(
            cx,
            all,
            typing,
            between,
            inner_types,
            inner_rows,
            inner_candidate,
            stacked(values, parts),
            depth,
        );
        lemma_specialized_rows(rows, last.head, last.parts, values, value);
    }
}

/// An arm that is called unreachable matches nothing new: every value that its
/// pattern matches is matched by one of the arms before it.
pub proof fn law_unreachable_arms_add_nothing(
    cx: &Context,
    types: Seq<TyData>,
    typing: spec_fn(TyId, PatternValue) -> bool,
    scrutinee: TyId,
    rows: Chain<Chain<CheckedPattern>>,
    candidate: CheckedPattern,
    value: PatternValue,
)
    requires
        types_wf(types),
        rows_have(rows, 1),
        !useful(cx, types, one(scrutinee), rows, one(candidate), 0).1,
        respects(cx, useful(cx, types, one(scrutinee), rows, one(candidate), 0).0, typing),
        typing(scrutinee, value),
        matches(candidate, value),
    ensures
        any_row_matches(rows, one(value)),
{
    let all = useful(cx, types, one(scrutinee), rows, one(candidate), 0).0;
    reveal_with_fuel(all_typed, 2);
    reveal_with_fuel(row_matches, 2);
    reveal_with_fuel(Chain::<_>::spec_len, 2);
    lemma_not_useful(
        cx,
        all,
        typing,
        types,
        one(scrutinee),
        rows,
        one(candidate),
        one(value),
        0,
    );
}

/// A match that is accepted covers every value of the type that it is made on.
pub proof fn law_accepted_matches_cover_every_value(
    cx: &Context,
    types: Seq<TyData>,
    typing: spec_fn(TyId, PatternValue) -> bool,
    scrutinee: TyId,
    rows: Chain<Chain<CheckedPattern>>,
    value: PatternValue,
)
    requires
        types_wf(types),
        rows_have(rows, 1),
        !useful(cx, types, one(scrutinee), rows, one(CheckedPattern::Wildcard), 0).1,
        respects(
            cx,
            useful(cx, types, one(scrutinee), rows, one(CheckedPattern::Wildcard), 0).0,
            typing,
        ),
        typing(scrutinee, value),
    ensures
        any_row_matches(rows, one(value)),
{
    law_unreachable_arms_add_nothing(
        cx,
        types,
        typing,
        scrutinee,
        rows,
        CheckedPattern::Wildcard,
        value,
    );
}

} // verus!
