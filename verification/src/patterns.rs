//! Patterns: what they bind, which are useful and whether they cover every
//! value.

use vstd::prelude::*;

use crate::chain::Chain;
#[allow(unused_imports)]
use crate::diagnostics::{adds_to, lemma_adds_nothing, lemma_adds_one, lemma_adds_through};
use crate::diagnostics::Message;
#[allow(unused_imports)]
use crate::growth::{later, lemma_later_itself, lemma_later_through};
use crate::hir::{same_literal, text_is, DefinitionKind, Literal, Path, Pattern, PatternKind};
#[allow(unused_imports)]
use crate::hir::literals_alike;
use crate::ids::{DefId, Span, TyId};
use crate::lookup::find_type;
#[allow(unused_imports)]
use crate::lookup::type_named;
use crate::semantics::{BuiltinValue, Resolution, Signature};
use crate::state::{BodyChecker, Context, ContractMode};
#[allow(unused_imports)]
use crate::state::World;
use crate::substitution::Substitution;
#[allow(unused_imports)]
use crate::substitution::substituted;
use crate::ty::{BuiltinType, TyData, TyInterner};
#[allow(unused_imports)]
use crate::ty::{builtin_ty, error_ty, ty_data, types_wf};
use crate::unify::{longer, substitution_for};
#[allow(unused_imports)]
use crate::unify::paired;

verus! {

broadcast use {
    lemma_adds_nothing,
    lemma_adds_one,
    lemma_adds_through,
    lemma_later_itself,
    lemma_later_through,
};

/// A variant that a pattern matches.
#[derive(Clone, Copy, Debug, PartialEq, Eq, Structural)]
pub enum PatternVariant {
    OptionNone,
    OptionSome,
    ResultOk,
    ResultErr,
    TaskCompleted,
    TaskFaulted,
    TaskCancelled,
    User(DefId),
}

/// What is left of a checked pattern for the question which values it matches.
pub enum CheckedPattern {
    Invalid,
    Wildcard,
    Literal(Literal),
    Variant(PatternVariant, Chain<CheckedPattern>),
}

impl Clone for CheckedPattern {
    fn clone(&self) -> (copy: Self)
        ensures
            copy == *self,
    {
        match self {
            CheckedPattern::Invalid => CheckedPattern::Invalid,
            CheckedPattern::Wildcard => CheckedPattern::Wildcard,
            CheckedPattern::Literal(literal) => CheckedPattern::Literal(literal.clone()),
            CheckedPattern::Variant(variant, payload) => CheckedPattern::Variant(
                *variant,
                payload.clone(),
            ),
        }
    }
}

/// What a value is made by.
pub enum PatternHead {
    Literal(Literal),
    Variant(PatternVariant),
}

pub open spec fn variant_resolution(variant: PatternVariant) -> Resolution {
    match variant {
        PatternVariant::OptionNone => Resolution::Builtin(BuiltinValue::OptionNone),
        PatternVariant::OptionSome => Resolution::Builtin(BuiltinValue::OptionSome),
        PatternVariant::ResultOk => Resolution::Builtin(BuiltinValue::ResultOk),
        PatternVariant::ResultErr => Resolution::Builtin(BuiltinValue::ResultErr),
        PatternVariant::TaskCompleted => Resolution::Builtin(BuiltinValue::TaskCompleted),
        PatternVariant::TaskFaulted => Resolution::Builtin(BuiltinValue::TaskFaulted),
        PatternVariant::TaskCancelled => Resolution::Builtin(BuiltinValue::TaskCancelled),
        PatternVariant::User(definition) => Resolution::Definition(definition),
    }
}

fn pattern_variant_resolution(variant: PatternVariant) -> (resolution: Resolution)
    ensures
        resolution == variant_resolution(variant),
{
    match variant {
        PatternVariant::OptionNone => Resolution::Builtin(BuiltinValue::OptionNone),
        PatternVariant::OptionSome => Resolution::Builtin(BuiltinValue::OptionSome),
        PatternVariant::ResultOk => Resolution::Builtin(BuiltinValue::ResultOk),
        PatternVariant::ResultErr => Resolution::Builtin(BuiltinValue::ResultErr),
        PatternVariant::TaskCompleted => Resolution::Builtin(BuiltinValue::TaskCompleted),
        PatternVariant::TaskFaulted => Resolution::Builtin(BuiltinValue::TaskFaulted),
        PatternVariant::TaskCancelled => Resolution::Builtin(BuiltinValue::TaskCancelled),
        PatternVariant::User(definition) => Resolution::Definition(definition),
    }
}

// Rows of patterns are kept with their first column last, so that a column is
// replaced by what it is made of at the end of the row.

/// The row with the items in front of its first column.
pub open spec fn stacked<T>(row: Chain<T>, items: Chain<T>) -> Chain<T>
    decreases items,
{
    match items {
        Chain::Empty => row,
        Chain::Link(link) => stacked(row.pushed(link.item), link.rest),
    }
}

fn stack_patterns(row: Chain<CheckedPattern>, items: &Chain<CheckedPattern>) -> (result: Chain<
    CheckedPattern,
>)
    ensures
        result == stacked(row, *items),
    decreases items,
{
    match items {
        Chain::Empty => row,
        Chain::Link(link) => stack_patterns(row.with(link.item.clone()), &link.rest),
    }
}

fn stack_types(row: Chain<TyId>, items: &Chain<TyId>) -> (result: Chain<TyId>)
    ensures
        result == stacked(row, *items),
    decreases items,
{
    match items {
        Chain::Empty => row,
        Chain::Link(link) => stack_types(row.with(link.item), &link.rest),
    }
}

/// The row with as many wildcards in front as there are types.
pub open spec fn with_wildcards(row: Chain<CheckedPattern>, types: Chain<TyId>) -> Chain<
    CheckedPattern,
>
    decreases types,
{
    match types {
        Chain::Empty => row,
        Chain::Link(link) => with_wildcards(row.pushed(CheckedPattern::Wildcard), link.rest),
    }
}

fn add_wildcards(row: Chain<CheckedPattern>, types: &Chain<TyId>) -> (result: Chain<CheckedPattern>)
    ensures
        result == with_wildcards(row, *types),
    decreases types,
{
    match types {
        Chain::Empty => row,
        Chain::Link(link) => add_wildcards(row.with(CheckedPattern::Wildcard), &link.rest),
    }
}

/// The rows that match a value made otherwise than the rows say, without
/// their first column.
pub open spec fn default_rows(rows: Chain<Chain<CheckedPattern>>) -> Chain<Chain<CheckedPattern>>
    decreases rows,
{
    match rows {
        Chain::Empty => Chain::Empty,
        Chain::Link(link) => {
            let rest = default_rows(link.rest);
            match link.item {
                Chain::Link(row) => match row.item {
                    CheckedPattern::Wildcard => rest.pushed(row.rest),
                    _ => rest,
                },
                Chain::Empty => rest,
            }
        },
    }
}

fn default_checked_rows(rows: &Chain<Chain<CheckedPattern>>) -> (result: Chain<
    Chain<CheckedPattern>,
>)
    ensures
        result == default_rows(*rows),
    decreases rows,
{
    match rows {
        Chain::Empty => Chain::new(),
        Chain::Link(link) => {
            let rest = default_checked_rows(&link.rest);
            match &link.item {
                Chain::Link(row) => match &row.item {
                    CheckedPattern::Wildcard => rest.with(row.rest.clone()),
                    _ => rest,
                },
                Chain::Empty => rest,
            }
        },
    }
}

/// What is left of a row for a value that is made by `head` of parts of the
/// given types; nothing if the row does not match it.
pub open spec fn specialized_row(
    row: Chain<CheckedPattern>,
    head: PatternHead,
    parts: Chain<TyId>,
) -> Option<Chain<CheckedPattern>> {
    match row {
        Chain::Empty => None,
        Chain::Link(link) => match link.item {
            CheckedPattern::Wildcard => Some(with_wildcards(link.rest, parts)),
            CheckedPattern::Literal(actual) => match head {
                PatternHead::Literal(wanted) => if literals_alike(wanted, actual) {
                    Some(link.rest)
                } else {
                    None
                },
                _ => None,
            },
            CheckedPattern::Variant(actual, payload) => match head {
                PatternHead::Variant(wanted) => if wanted == actual && payload.spec_len()
                    == parts.spec_len() {
                    Some(stacked(link.rest, payload))
                } else {
                    None
                },
                _ => None,
            },
            CheckedPattern::Invalid => None,
        },
    }
}

fn specialize_row(row: &Chain<CheckedPattern>, head: &PatternHead, parts: &Chain<TyId>) -> (result:
    Option<Chain<CheckedPattern>>)
    ensures
        result == specialized_row(*row, *head, *parts),
{
    match row {
        Chain::Empty => None,
        Chain::Link(link) => match &link.item {
            CheckedPattern::Wildcard => Some(add_wildcards(link.rest.clone(), parts)),
            CheckedPattern::Literal(actual) => match head {
                PatternHead::Literal(wanted) => if same_literal(wanted, actual) {
                    Some(link.rest.clone())
                } else {
                    None
                },
                _ => None,
            },
            CheckedPattern::Variant(actual, payload) => match head {
                PatternHead::Variant(wanted) => if *wanted == *actual
                    && crate::chain::same_length(payload, parts) {
                    Some(stack_patterns(link.rest.clone(), payload))
                } else {
                    None
                },
                _ => None,
            },
            CheckedPattern::Invalid => None,
        },
    }
}

pub open spec fn specialized_rows(
    rows: Chain<Chain<CheckedPattern>>,
    head: PatternHead,
    parts: Chain<TyId>,
) -> Chain<Chain<CheckedPattern>>
    decreases rows,
{
    match rows {
        Chain::Empty => Chain::Empty,
        Chain::Link(link) => {
            let rest = specialized_rows(link.rest, head, parts);
            match specialized_row(link.item, head, parts) {
                Some(row) => rest.pushed(row),
                None => rest,
            }
        },
    }
}

fn specialize_checked_rows(
    rows: &Chain<Chain<CheckedPattern>>,
    head: &PatternHead,
    parts: &Chain<TyId>,
) -> (result: Chain<Chain<CheckedPattern>>)
    ensures
        result == specialized_rows(*rows, *head, *parts),
    decreases rows,
{
    match rows {
        Chain::Empty => Chain::new(),
        Chain::Link(link) => {
            let rest = specialize_checked_rows(&link.rest, head, parts);
            match specialize_row(&link.item, head, parts) {
                Some(row) => rest.with(row),
                None => rest,
            }
        },
    }
}

/// Substitution in each type of a list.
pub open spec fn all_substituted(
    types: Seq<TyData>,
    list: Chain<TyId>,
    substitution: Substitution,
) -> (Seq<TyData>, Chain<TyId>)
    decreases list,
{
    match list {
        Chain::Empty => (types, Chain::Empty),
        Chain::Link(link) => {
            let (between, rest) = all_substituted(types, link.rest, substitution);
            let (after, ty) = substituted(between, link.item, substitution);
            (after, rest.pushed(ty))
        },
    }
}

fn substitute_all(
    types: &mut TyInterner,
    list: &Chain<TyId>,
    substitution: &Substitution,
) -> (result:
    Chain<TyId>)
    requires
        types_wf(old(types)@),
    ensures
        types_wf(final(types)@),
        later(old(types)@, final(types)@),
        (final(types)@, result) == all_substituted(old(types)@, *list, *substitution),
    decreases list,
{
    match list {
        Chain::Empty => Chain::new(),
        Chain::Link(link) => {
            let rest = substitute_all(types, &link.rest, substitution);
            let ty = types.substitute(link.item, substitution);
            rest.with(ty)
        },
    }
}

pub open spec fn one<T>(item: T) -> Chain<T> {
    Chain::Empty.pushed(item)
}

/// The types of the parts of a variant of the type `expected`.
pub open spec fn payload_of(
    cx: &Context,
    types: Seq<TyData>,
    variant: PatternVariant,
    expected: TyId,
) -> (Seq<TyData>, Chain<TyId>) {
    match (variant, ty_data(types, expected)) {
        (PatternVariant::OptionSome, TyData::Option(element)) => (types, one(element)),
        (PatternVariant::ResultOk, TyData::Result { ok, error: _ }) => (types, one(ok)),
        (PatternVariant::ResultErr, TyData::Result { ok: _, error }) => (types, one(error)),
        (PatternVariant::TaskCompleted, TyData::TaskOutcome(output)) => (types, one(output)),
        (PatternVariant::TaskFaulted, TyData::TaskOutcome(_)) => (
            types,
            one(builtin_ty(BuiltinType::TaskFault)),
        ),
        (PatternVariant::User(variant), TyData::Nominal { definition, arguments }) =>
            match cx.signature_of(variant) {
                Some(Signature::Variant { owner: _, payload }) => all_substituted(
                    types,
                    payload,
                    paired(
                        cx.program.type_params_of(definition),
                        arguments,
                        Substitution::empty(),
                    ),
                ),
                _ => (types, Chain::Empty),
            },
        _ => (types, Chain::Empty),
    }
}

fn variant_payload(
    cx: &Context,
    types: &mut TyInterner,
    variant: PatternVariant,
    expected: TyId,
) -> (payload: Chain<TyId>)
    requires
        types_wf(old(types)@),
    ensures
        types_wf(final(types)@),
        later(old(types)@, final(types)@),
        (final(types)@, payload) == payload_of(cx, old(types)@, variant, expected),
{
    let data = types.data(expected).clone();
    match (variant, data) {
        (PatternVariant::OptionSome, TyData::Option(element)) => Chain::new().with(element),
        (PatternVariant::ResultOk, TyData::Result { ok, error: _ }) => Chain::new().with(ok),
        (PatternVariant::ResultErr, TyData::Result { ok: _, error }) => Chain::new().with(error),
        (PatternVariant::TaskCompleted, TyData::TaskOutcome(output)) => Chain::new().with(output),
        (PatternVariant::TaskFaulted, TyData::TaskOutcome(_)) => Chain::new().with(
            types.builtin(BuiltinType::TaskFault),
        ),
        (PatternVariant::User(variant), TyData::Nominal { definition, arguments }) =>
            match cx.signature(variant) {
                Some(Signature::Variant { owner: _, payload }) => {
                    let parameters = cx.program.type_generic_params(definition);
                    let substitution = substitution_for(&parameters, &arguments);
                    substitute_all(types, payload, &substitution)
                },
                _ => Chain::new(),
            },
        _ => Chain::new(),
    }
}

/// One way to make a value: what it is made by, and the types of the parts.
pub struct Constructor {
    pub head: PatternHead,
    pub parts: Chain<TyId>,
}

pub open spec fn variant_added(
    cx: &Context,
    types: Seq<TyData>,
    list: Chain<Constructor>,
    variant: PatternVariant,
    expected: TyId,
) -> (Seq<TyData>, Chain<Constructor>) {
    let (after, parts) = payload_of(cx, types, variant, expected);
    (after, list.pushed(Constructor { head: PatternHead::Variant(variant), parts }))
}

fn add_variant(
    cx: &Context,
    types: &mut TyInterner,
    list: Chain<Constructor>,
    variant: PatternVariant,
    expected: TyId,
) -> (result: Chain<Constructor>)
    requires
        types_wf(old(types)@),
    ensures
        types_wf(final(types)@),
        later(old(types)@, final(types)@),
        (final(types)@, result) == variant_added(cx, old(types)@, list, variant, expected),
{
    let parts = variant_payload(cx, types, variant, expected);
    list.with(Constructor { head: PatternHead::Variant(variant), parts })
}

pub open spec fn user_constructors(
    cx: &Context,
    types: Seq<TyData>,
    variants: Chain<DefId>,
    expected: TyId,
) -> (Seq<TyData>, Chain<Constructor>)
    decreases variants,
{
    match variants {
        Chain::Empty => (types, Chain::Empty),
        Chain::Link(link) => {
            let (between, rest) = user_constructors(cx, types, link.rest, expected);
            variant_added(cx, between, rest, PatternVariant::User(link.item), expected)
        },
    }
}

fn make_user_constructors(
    cx: &Context,
    types: &mut TyInterner,
    variants: &Chain<DefId>,
    expected: TyId,
) -> (result: Chain<Constructor>)
    requires
        types_wf(old(types)@),
    ensures
        types_wf(final(types)@),
        later(old(types)@, final(types)@),
        (final(types)@, result) == user_constructors(cx, old(types)@, *variants, expected),
    decreases variants,
{
    match variants {
        Chain::Empty => Chain::new(),
        Chain::Link(link) => {
            let rest = make_user_constructors(cx, types, &link.rest, expected);
            add_variant(cx, types, rest, PatternVariant::User(link.item), expected)
        },
    }
}

pub open spec fn literal_constructor(literal: Literal) -> Constructor {
    Constructor { head: PatternHead::Literal(literal), parts: Chain::Empty }
}

/// The ways in which values of a type are made, where there are finitely many.
pub open spec fn constructors_of(cx: &Context, types: Seq<TyData>, expected: TyId) -> (
    Seq<TyData>,
    Option<Chain<Constructor>>,
) {
    match ty_data(types, expected) {
        TyData::Error => (types, Some(Chain::Empty)),
        TyData::Never => (types, Some(Chain::Empty)),
        TyData::Builtin(BuiltinType::Bool) => (
            types,
            Some(
                one(literal_constructor(Literal::Bool(false))).pushed(
                    literal_constructor(Literal::Bool(true)),
                ),
            ),
        ),
        TyData::Builtin(BuiltinType::Unit) => (
            types,
            Some(one(literal_constructor(Literal::Unit))),
        ),
        TyData::Option(_) => {
            let (types, list) = variant_added(
                cx,
                types,
                Chain::Empty,
                PatternVariant::OptionNone,
                expected,
            );
            let (types, list) = variant_added(
                cx,
                types,
                list,
                PatternVariant::OptionSome,
                expected,
            );
            (types, Some(list))
        },
        TyData::Result { ok: _, error: _ } => {
            let (types, list) = variant_added(
                cx,
                types,
                Chain::Empty,
                PatternVariant::ResultOk,
                expected,
            );
            let (types, list) = variant_added(cx, types, list, PatternVariant::ResultErr, expected);
            (types, Some(list))
        },
        TyData::TaskOutcome(_) => {
            let (types, list) = variant_added(
                cx,
                types,
                Chain::Empty,
                PatternVariant::TaskCompleted,
                expected,
            );
            let (types, list) = variant_added(
                cx,
                types,
                list,
                PatternVariant::TaskFaulted,
                expected,
            );
            let (types, list) = variant_added(
                cx,
                types,
                list,
                PatternVariant::TaskCancelled,
                expected,
            );
            (types, Some(list))
        },
        TyData::Nominal { definition, arguments: _ } => match cx.program.kind_of(definition) {
            Some(DefinitionKind::Enum { generic_params: _, variants }) => {
                let (types, list) = user_constructors(cx, types, variants, expected);
                (types, Some(list))
            },
            _ => (types, None),
        },
        _ => (types, None),
    }
}

fn finite_pattern_constructors(
    cx: &Context,
    types: &mut TyInterner,
    expected: TyId,
) -> (result: Option<
    Chain<Constructor>,
>)
    requires
        types_wf(old(types)@),
    ensures
        types_wf(final(types)@),
        later(old(types)@, final(types)@),
        (final(types)@, result) == constructors_of(cx, old(types)@, expected),
{
    let data = types.data(expected).clone();
    match data {
        TyData::Error | TyData::Never => Some(Chain::new()),
        TyData::Builtin(BuiltinType::Bool) => Some(
            Chain::new().with(
                Constructor {
                    head: PatternHead::Literal(Literal::Bool(false)),
                    parts: Chain::new(),
                },
            ).with(
                Constructor {
                    head: PatternHead::Literal(Literal::Bool(true)),
                    parts: Chain::new(),
                },
            ),
        ),
        TyData::Builtin(BuiltinType::Unit) => Some(
            Chain::new().with(
                Constructor { head: PatternHead::Literal(Literal::Unit), parts: Chain::new() },
            ),
        ),
        TyData::Option(_) => {
            let list = add_variant(
                cx,
                types,
                Chain::new(),
                PatternVariant::OptionNone,
                expected,
            );
            Some(add_variant(cx, types, list, PatternVariant::OptionSome, expected))
        },
        TyData::Result { ok: _, error: _ } => {
            let list = add_variant(cx, types, Chain::new(), PatternVariant::ResultOk, expected);
            Some(add_variant(cx, types, list, PatternVariant::ResultErr, expected))
        },
        TyData::TaskOutcome(_) => {
            let list = add_variant(
                cx,
                types,
                Chain::new(),
                PatternVariant::TaskCompleted,
                expected,
            );
            let list = add_variant(cx, types, list, PatternVariant::TaskFaulted, expected);
            Some(add_variant(cx, types, list, PatternVariant::TaskCancelled, expected))
        },
        TyData::Nominal { definition, arguments: _ } => match cx.program.kind(definition) {
            Some(DefinitionKind::Enum { generic_params: _, variants }) => Some(
                make_user_constructors(cx, types, variants, expected),
            ),
            _ => None,
        },
        _ => None,
    }
}

/// How deep patterns are compared.
pub const PATTERN_DEPTH_LIMIT: u16 = 128;

/// Whether a row of patterns matches a value that none of `rows` matches.
/// Beyond the depth limit every row counts as useful.
pub open spec fn useful(
    cx: &Context,
    types: Seq<TyData>,
    expected: Chain<TyId>,
    rows: Chain<Chain<CheckedPattern>>,
    candidate: Chain<CheckedPattern>,
    depth: u16,
) -> (Seq<TyData>, bool)
    decreases PATTERN_DEPTH_LIMIT - depth, 0nat, 0nat,
{
    match (expected, candidate) {
        (Chain::Link(wanted), Chain::Link(pattern)) => if depth >= PATTERN_DEPTH_LIMIT {
            (types, true)
        } else {
            let next = (depth + 1) as u16;
            match pattern.item {
                CheckedPattern::Invalid => (types, true),
                CheckedPattern::Wildcard => match constructors_of(cx, types, wanted.item) {
                    (types, Some(constructors)) => any_useful(
                        cx,
                        types,
                        constructors,
                        wanted.rest,
                        rows,
                        pattern.rest,
                        next,
                    ),
                    (types, None) => useful(
                        cx,
                        types,
                        wanted.rest,
                        default_rows(rows),
                        pattern.rest,
                        next,
                    ),
                },
                CheckedPattern::Literal(literal) => useful(
                    cx,
                    types,
                    wanted.rest,
                    specialized_rows(rows, PatternHead::Literal(literal), Chain::Empty),
                    pattern.rest,
                    next,
                ),
                CheckedPattern::Variant(variant, payload) => {
                    let (types, parts) = payload_of(cx, types, variant, wanted.item);
                    if parts.spec_len() != payload.spec_len() {
                        (types, true)
                    } else {
                        useful(
                            cx,
                            types,
                            stacked(wanted.rest, parts),
                            specialized_rows(rows, PatternHead::Variant(variant), parts),
                            stacked(pattern.rest, payload),
                            next,
                        )
                    }
                },
            }
        },
        _ => (types, rows is Empty),
    }
}

/// Whether a wildcard in front of `candidate` is useful for a value made in
/// one of the given ways.
pub open spec fn any_useful(
    cx: &Context,
    types: Seq<TyData>,
    constructors: Chain<Constructor>,
    expected: Chain<TyId>,
    rows: Chain<Chain<CheckedPattern>>,
    candidate: Chain<CheckedPattern>,
    depth: u16,
) -> (Seq<TyData>, bool)
    decreases PATTERN_DEPTH_LIMIT - depth, 1nat, constructors.spec_len(),
{
    match constructors {
        Chain::Empty => (types, false),
        Chain::Link(link) => {
            let (types, found) = any_useful(
                cx,
                types,
                link.rest,
                expected,
                rows,
                candidate,
                depth,
            );
            if found {
                (types, true)
            } else {
                useful(
                    cx,
                    types,
                    stacked(expected, link.item.parts),
                    specialized_rows(rows, link.item.head, link.item.parts),
                    with_wildcards(candidate, link.item.parts),
                    depth,
                )
            }
        },
    }
}

fn pattern_vector_useful(
    cx: &Context,
    types: &mut TyInterner,
    expected: &Chain<TyId>,
    rows: &Chain<Chain<CheckedPattern>>,
    candidate: &Chain<CheckedPattern>,
    depth: u16,
) -> (result: bool)
    requires
        types_wf(old(types)@),
        depth <= PATTERN_DEPTH_LIMIT,
    ensures
        types_wf(final(types)@),
        later(old(types)@, final(types)@),
        (final(types)@, result) == useful(
            cx,
            old(types)@,
            *expected,
            *rows,
            *candidate,
            depth,
        ),
    decreases PATTERN_DEPTH_LIMIT - depth, 0nat, 0nat,
{
    match (expected, candidate) {
        (Chain::Link(wanted), Chain::Link(pattern)) => {
            if depth >= PATTERN_DEPTH_LIMIT {
                return true;
            }
            let next: u16 = depth + 1;
            match &pattern.item {
                CheckedPattern::Invalid => true,
                CheckedPattern::Wildcard => match finite_pattern_constructors(
                    cx,
                    types,
                    wanted.item,
                ) {
                    Some(constructors) => any_constructor_useful(
                        cx,
                        types,
                        &constructors,
                        &wanted.rest,
                        rows,
                        &pattern.rest,
                        next,
                    ),
                    None => {
                        let rows = default_checked_rows(rows);
                        pattern_vector_useful(
                            cx,
                            types,
                            &wanted.rest,
                            &rows,
                            &pattern.rest,
                            next,
                        )
                    },
                },
                CheckedPattern::Literal(literal) => {
                    let head = PatternHead::Literal(literal.clone());
                    let rows = specialize_checked_rows(rows, &head, &Chain::new());
                    pattern_vector_useful(cx, types, &wanted.rest, &rows, &pattern.rest, next)
                },
                CheckedPattern::Variant(variant, payload) => {
                    let parts = variant_payload(cx, types, *variant, wanted.item);
                    if !crate::chain::same_length(&parts, payload) {
                        return true;
                    }
                    let head = PatternHead::Variant(*variant);
                    let rows = specialize_checked_rows(rows, &head, &parts);
                    let expected = stack_types(wanted.rest.clone(), &parts);
                    let candidate = stack_patterns(pattern.rest.clone(), payload);
                    pattern_vector_useful(cx, types, &expected, &rows, &candidate, next)
                },
            }
        },
        _ => rows.is_empty(),
    }
}

fn any_constructor_useful(
    cx: &Context,
    types: &mut TyInterner,
    constructors: &Chain<Constructor>,
    expected: &Chain<TyId>,
    rows: &Chain<Chain<CheckedPattern>>,
    candidate: &Chain<CheckedPattern>,
    depth: u16,
) -> (result: bool)
    requires
        types_wf(old(types)@),
        depth <= PATTERN_DEPTH_LIMIT,
    ensures
        types_wf(final(types)@),
        later(old(types)@, final(types)@),
        (final(types)@, result) == any_useful(
            cx,
            old(types)@,
            *constructors,
            *expected,
            *rows,
            *candidate,
            depth,
        ),
    decreases PATTERN_DEPTH_LIMIT - depth, 1nat, constructors.spec_len(),
{
    match constructors {
        Chain::Empty => false,
        Chain::Link(link) => {
            if any_constructor_useful(cx, types, &link.rest, expected, rows, candidate, depth) {
                return true;
            }
            let rows = specialize_checked_rows(rows, &link.item.head, &link.item.parts);
            let expected = stack_types(expected.clone(), &link.item.parts);
            let candidate = add_wildcards(candidate.clone(), &link.item.parts);
            pattern_vector_useful(cx, types, &expected, &rows, &candidate, depth)
        },
    }
}

/// The last part of a path.
pub open spec fn last_name(path: Path) -> Option<Seq<char>> {
    match path.segments {
        Chain::Empty => None,
        Chain::Link(link) => Some(link.item.name@),
    }
}

/// A type in front of a variant is the type of the matched value.
pub open spec fn qualifier_matches(cx: &Context, data: TyData, qualifier: Option<Path>) -> bool {
    match qualifier {
        None => true,
        Some(path) => match data {
            TyData::Option(_) => path.single() is Some && path.single()->0.name@ == "Option"@,
            TyData::Result { ok: _, error: _ } => path.single() is Some
                && path.single()->0.name@ == "Result"@,
            TyData::TaskOutcome(_) => path.single() is Some && path.single()->0.name@
                == "TaskOutcome"@,
            TyData::Nominal { definition, arguments: _ } => type_named(cx, path) == Some(
                definition,
            ),
            _ => false,
        },
    }
}

fn is_single(path: &Path, name: &str) -> (result: bool)
    ensures
        result == (path.single() is Some && path.single()->0.name@ == name@),
{
    match path.only_segment() {
        Some(segment) => text_is(&segment.name, name),
        None => false,
    }
}

fn pattern_qualifier_matches(cx: &Context, data: &TyData, qualifier: &Option<Path>) -> (matches:
    bool)
    ensures
        matches == qualifier_matches(cx, *data, *qualifier),
{
    match qualifier {
        None => true,
        Some(path) => match data {
            TyData::Option(_) => is_single(path, "Option"),
            TyData::Result { ok: _, error: _ } => is_single(path, "Result"),
            TyData::TaskOutcome(_) => is_single(path, "TaskOutcome"),
            TyData::Nominal { definition, arguments: _ } => match find_type(cx, path) {
                Some(found) => found == *definition,
                None => false,
            },
            _ => false,
        },
    }
}

/// The variant that a pattern names, for a value of the given type.
pub open spec fn variant_named(
    cx: &Context,
    data: TyData,
    path: Path,
    qualifier: Option<Path>,
    bare: bool,
) -> Option<PatternVariant> {
    match last_name(path) {
        None => None,
        Some(name) => if !qualifier_matches(cx, data, qualifier) {
            None
        } else {
            match data {
                TyData::Option(_) => if name == "None"@ && bare {
                    Some(PatternVariant::OptionNone)
                } else if name == "Some"@ {
                    Some(PatternVariant::OptionSome)
                } else {
                    None
                },
                TyData::Result { ok: _, error: _ } => if name == "Ok"@ {
                    Some(PatternVariant::ResultOk)
                } else if name == "Err"@ {
                    Some(PatternVariant::ResultErr)
                } else {
                    None
                },
                TyData::TaskOutcome(_) => if name == "Completed"@ {
                    Some(PatternVariant::TaskCompleted)
                } else if name == "Faulted"@ {
                    Some(PatternVariant::TaskFaulted)
                } else if name == "Cancelled"@ && bare {
                    Some(PatternVariant::TaskCancelled)
                } else {
                    None
                },
                TyData::Nominal { definition, arguments: _ } => match cx.program.kind_of(
                    definition,
                ) {
                    Some(DefinitionKind::Enum { generic_params: _, variants }) =>
                        match cx.program.member_named(variants, name) {
                            Some(variant) => Some(PatternVariant::User(variant)),
                            None => None,
                        },
                    _ => None,
                },
                _ => None,
            }
        },
    }
}

fn resolve_pattern_variant(
    cx: &Context,
    data: &TyData,
    path: &Path,
    qualifier: &Option<Path>,
    bare: bool,
) -> (variant: Option<PatternVariant>)
    ensures
        variant == variant_named(cx, *data, *path, *qualifier, bare),
{
    let name = match &path.segments {
        Chain::Empty => return None,
        Chain::Link(link) => &link.item.name,
    };
    if !pattern_qualifier_matches(cx, data, qualifier) {
        return None;
    }
    match data {
        TyData::Option(_) => if text_is(name, "None") && bare {
            Some(PatternVariant::OptionNone)
        } else if text_is(name, "Some") {
            Some(PatternVariant::OptionSome)
        } else {
            None
        },
        TyData::Result { ok: _, error: _ } => if text_is(name, "Ok") {
            Some(PatternVariant::ResultOk)
        } else if text_is(name, "Err") {
            Some(PatternVariant::ResultErr)
        } else {
            None
        },
        TyData::TaskOutcome(_) => if text_is(name, "Completed") {
            Some(PatternVariant::TaskCompleted)
        } else if text_is(name, "Faulted") {
            Some(PatternVariant::TaskFaulted)
        } else if text_is(name, "Cancelled") && bare {
            Some(PatternVariant::TaskCancelled)
        } else {
            None
        },
        TyData::Nominal { definition, arguments: _ } => match cx.program.kind(*definition) {
            Some(DefinitionKind::Enum { generic_params: _, variants }) =>
                match cx.program.find_member(variants, name) {
                    Some(variant) => Some(PatternVariant::User(variant)),
                    None => None,
                },
            _ => None,
        },
        _ => None,
    }
}

pub open spec fn literal_ty(literal: Literal) -> TyId {
    match literal {
        Literal::Bool(_) => builtin_ty(BuiltinType::Bool),
        Literal::Int(_) => builtin_ty(BuiltinType::Int),
        Literal::Float(_, _) => builtin_ty(BuiltinType::Float),
        Literal::Text(_) => builtin_ty(BuiltinType::Text),
        Literal::Unit => builtin_ty(BuiltinType::Unit),
    }
}

impl World {
    /// A value is matched and dropped.
    #[verifier::opaque]
    pub open spec fn discard_pattern(self, cx: &Context, span: Span, expected: TyId) -> World {
        let (w, must_scope) = self.has_must_scope_obligation(cx, expected);
        let w = if must_scope {
            w.text_error(
                "MustScopeRequiresScoped",
                "a pattern cannot discard a value containing a MustScope resource",
                span,
            )
        } else {
            w
        };
        if w.st.contract != ContractMode::Ordinary {
            w
        } else {
            let (w, task) = w.may_have_task_obligation(cx, expected);
            if task {
                w.text_error(
                    "TaskPatternDiscard",
                    "a pattern cannot discard a value carrying a Task obligation",
                    span,
                )
            } else {
                w
            }
        }
    }

    #[verifier::opaque]
    pub open spec fn unknown_variant(self, p: Pattern, path: Path) -> World {
        self.error(
            "UnknownName",
            Message::Path("unknown variant `", path.segments, "`"),
            p.span,
        ).set_pattern_resolution(p.id, Resolution::Error)
    }

    /// The pattern names a variant; the types of its parts.
    #[verifier::opaque]
    pub open spec fn enter_variant(
        self,
        cx: &Context,
        p: Pattern,
        variant: PatternVariant,
        payload: Chain<Pattern>,
        expected: TyId,
    ) -> (World, Chain<TyId>) {
        let w = self.set_pattern_resolution(p.id, variant_resolution(variant));
        let (types, parts) = payload_of(cx, w.types, variant, expected);
        let w = World { types, ..w };
        (
            if parts.spec_len() != payload.spec_len() {
                w.text_error("TypeMismatch", "variant pattern payload has the wrong arity", p.span)
            } else {
                w
            },
            parts,
        )
    }

    /// Checks a pattern against the type of the value that it matches.
    pub open spec fn check_pattern(self, cx: &Context, p: Pattern, expected: TyId) -> (
        World,
        CheckedPattern,
    )
        decreases p, 1nat,
    {
        let w = self.set_pattern_type(p.id, expected);
        match p.kind {
            PatternKind::Error => (
                w.set_pattern_resolution(p.id, Resolution::Error),
                CheckedPattern::Invalid,
            ),
            PatternKind::Wildcard => (
                w.discard_pattern(cx, p.span, expected),
                CheckedPattern::Wildcard,
            ),
            PatternKind::Binding(local) => (
                w.bind_pattern(cx, p.id, local, expected),
                CheckedPattern::Wildcard,
            ),
            PatternKind::Literal(literal) => (
                w.expect_compatible(cx, p.span, literal_ty(literal), expected),
                CheckedPattern::Literal(literal),
            ),
            PatternKind::Name { path, qualifier, payload, binding } => match variant_named(
                cx,
                w.data(expected),
                path,
                qualifier,
                payload is Empty,
            ) {
                Some(variant) => w.check_variant_pattern(cx, p, variant, payload, expected),
                None => match binding {
                    Some(local) => (
                        w.bind_pattern(cx, p.id, local, expected),
                        CheckedPattern::Wildcard,
                    ),
                    None => (w.unknown_variant(p, path), CheckedPattern::Invalid),
                },
            },
            PatternKind::Variant { path, qualifier, payload } => match variant_named(
                cx,
                w.data(expected),
                path,
                qualifier,
                payload is Empty,
            ) {
                Some(variant) => w.check_variant_pattern(cx, p, variant, payload, expected),
                None => (w.unknown_variant(p, path), CheckedPattern::Invalid),
            },
        }
    }

    pub open spec fn check_variant_pattern(
        self,
        cx: &Context,
        p: Pattern,
        variant: PatternVariant,
        payload: Chain<Pattern>,
        expected: TyId,
    ) -> (World, CheckedPattern)
        decreases payload, 1nat,
    {
        let (w, parts) = self.enter_variant(cx, p, variant, payload, expected);
        let (w, children) = w.check_children(cx, payload, parts);
        (
            w,
            if parts.spec_len() == payload.spec_len() {
                CheckedPattern::Variant(variant, children)
            } else {
                CheckedPattern::Invalid
            },
        )
    }

    /// Checks the parts of a pattern. A part without a type is checked against
    /// the error type.
    pub open spec fn check_children(
        self,
        cx: &Context,
        payload: Chain<Pattern>,
        parts: Chain<TyId>,
    ) -> (World, Chain<CheckedPattern>)
        decreases payload, 0nat,
    {
        match payload {
            Chain::Empty => (self, Chain::Empty),
            Chain::Link(link) => {
                let (w, children) = self.check_children(cx, link.rest, front_of(parts, link.rest));
                let (w, child) = w.check_pattern(cx, link.item, part_at(parts, link.rest));
                (w, children.pushed(child))
            },
        }
    }
}

/// The part at the position behind `before`.
pub open spec fn part_at<T>(parts: Chain<TyId>, before: Chain<T>) -> TyId
    decreases parts,
{
    match parts {
        Chain::Empty => error_ty(),
        Chain::Link(link) => if link.rest.spec_len() > before.spec_len() {
            part_at(link.rest, before)
        } else if link.rest.spec_len() == before.spec_len() {
            link.item
        } else {
            error_ty()
        },
    }
}

/// As many of the first parts as `before` has elements.
pub open spec fn front_of<T>(parts: Chain<TyId>, before: Chain<T>) -> Chain<TyId>
    decreases parts,
{
    match parts {
        Chain::Empty => parts,
        Chain::Link(link) => if parts.spec_len() > before.spec_len() {
            front_of(link.rest, before)
        } else {
            parts
        },
    }
}

fn find_part<T>(parts: &Chain<TyId>, before: &Chain<T>) -> (part: TyId)
    ensures
        part == part_at(*parts, *before),
    decreases parts,
{
    match parts {
        Chain::Empty => TyId(0),
        Chain::Link(link) => if longer(&link.rest, before) {
            find_part(&link.rest, before)
        } else if crate::chain::same_length(&link.rest, before) {
            link.item
        } else {
            TyId(0)
        },
    }
}

fn take_front<T>(parts: &Chain<TyId>, before: &Chain<T>) -> (front: Chain<TyId>)
    ensures
        front == front_of(*parts, *before),
    decreases parts,
{
    match parts {
        Chain::Empty => Chain::new(),
        Chain::Link(link) => if longer(parts, before) {
            take_front(&link.rest, before)
        } else {
            parts.clone()
        },
    }
}

impl BodyChecker {
    fn discard_pattern(&mut self, cx: &Context, span: Span, expected: TyId)
        requires
            old(self).wf(),
        ensures
            adds_to(old(self)@.st.diagnostics, final(self)@.st.diagnostics),
            final(self).wf(),
            later(old(self)@.types, final(self)@.types),
            final(self)@ == old(self)@.discard_pattern(cx, span, expected),
    {
        proof {
            reveal(World::discard_pattern);
        }
        if self.has_must_scope_obligation(cx, expected) {
            self.text_error(
                "MustScopeRequiresScoped",
                "a pattern cannot discard a value containing a MustScope resource",
                span,
            );
        }
        if self.st.contract == ContractMode::Ordinary {
            if self.may_have_task_obligation(cx, expected) {
                self.text_error(
                    "TaskPatternDiscard",
                    "a pattern cannot discard a value carrying a Task obligation",
                    span,
                );
            }
        }
    }

    fn unknown_variant(&mut self, p: &Pattern, path: &Path)
        ensures
            adds_to(old(self)@.st.diagnostics, final(self)@.st.diagnostics),
            final(self)@.types == old(self)@.types,
            final(self)@ == old(self)@.unknown_variant(*p, *path),
    {
        proof {
            reveal(World::unknown_variant);
        }
        self.error(
            "UnknownName",
            Message::Path("unknown variant `", path.segments.clone(), "`"),
            p.span,
        );
        self.set_pattern_resolution(p.id, Resolution::Error);
    }

    fn enter_variant(
        &mut self,
        cx: &Context,
        p: &Pattern,
        variant: PatternVariant,
        payload: &Chain<Pattern>,
        expected: TyId,
    ) -> (parts: Chain<TyId>)
        requires
            old(self).wf(),
        ensures
            adds_to(old(self)@.st.diagnostics, final(self)@.st.diagnostics),
            final(self).wf(),
            later(old(self)@.types, final(self)@.types),
            (final(self)@, parts) == old(self)@.enter_variant(
                cx,
                *p,
                variant,
                *payload,
                expected,
            ),
    {
        proof {
            reveal(World::enter_variant);
        }
        self.set_pattern_resolution(p.id, pattern_variant_resolution(variant));
        let parts = variant_payload(cx, &mut self.types, variant, expected);
        if !crate::chain::same_length(&parts, payload) {
            self.text_error("TypeMismatch", "variant pattern payload has the wrong arity", p.span);
        }
        parts
    }

    pub fn check_pattern(&mut self, cx: &Context, p: &Pattern, expected: TyId) -> (result:
        CheckedPattern)
        requires
            old(self).wf(),
        ensures
            adds_to(old(self)@.st.diagnostics, final(self)@.st.diagnostics),
            final(self).wf(),
            later(old(self)@.types, final(self)@.types),
            (final(self)@, result) == old(self)@.check_pattern(cx, *p, expected),
        decreases p, 1nat,
    {
        self.set_pattern_type(p.id, expected);
        match &p.kind {
            PatternKind::Error => {
                self.set_pattern_resolution(p.id, Resolution::Error);
                CheckedPattern::Invalid
            },
            PatternKind::Wildcard => {
                self.discard_pattern(cx, p.span, expected);
                CheckedPattern::Wildcard
            },
            PatternKind::Binding(local) => {
                self.bind_pattern(cx, p.id, *local, expected);
                CheckedPattern::Wildcard
            },
            PatternKind::Literal(literal) => {
                let ty = match literal {
                    Literal::Bool(_) => self.builtin(BuiltinType::Bool),
                    Literal::Int(_) => self.builtin(BuiltinType::Int),
                    Literal::Float(_, _) => self.builtin(BuiltinType::Float),
                    Literal::Text(_) => self.builtin(BuiltinType::Text),
                    Literal::Unit => self.builtin(BuiltinType::Unit),
                };
                self.expect_compatible(cx, p.span, ty, expected);
                CheckedPattern::Literal(literal.clone())
            },
            PatternKind::Name { path, qualifier, payload, binding } => {
                let data = self.data(expected);
                match resolve_pattern_variant(cx, &data, path, qualifier, payload.is_empty()) {
                    Some(variant) => self.check_variant_pattern(cx, p, variant, payload, expected),
                    None => match binding {
                        Some(local) => {
                            self.bind_pattern(cx, p.id, *local, expected);
                            CheckedPattern::Wildcard
                        },
                        None => {
                            self.unknown_variant(p, path);
                            CheckedPattern::Invalid
                        },
                    },
                }
            },
            PatternKind::Variant { path, qualifier, payload } => {
                let data = self.data(expected);
                match resolve_pattern_variant(cx, &data, path, qualifier, payload.is_empty()) {
                    Some(variant) => self.check_variant_pattern(cx, p, variant, payload, expected),
                    None => {
                        self.unknown_variant(p, path);
                        CheckedPattern::Invalid
                    },
                }
            },
        }
    }

    fn check_variant_pattern(
        &mut self,
        cx: &Context,
        p: &Pattern,
        variant: PatternVariant,
        payload: &Chain<Pattern>,
        expected: TyId,
    ) -> (result: CheckedPattern)
        requires
            old(self).wf(),
        ensures
            adds_to(old(self)@.st.diagnostics, final(self)@.st.diagnostics),
            final(self).wf(),
            later(old(self)@.types, final(self)@.types),
            (final(self)@, result) == old(self)@.check_variant_pattern(
                cx,
                *p,
                variant,
                *payload,
                expected,
            ),
        decreases payload, 1nat,
    {
        let parts = self.enter_variant(cx, p, variant, payload, expected);
        let valid = crate::chain::same_length(&parts, payload);
        let children = self.check_children(cx, payload, &parts);
        if valid {
            CheckedPattern::Variant(variant, children)
        } else {
            CheckedPattern::Invalid
        }
    }

    fn check_children(
        &mut self,
        cx: &Context,
        payload: &Chain<Pattern>,
        parts: &Chain<TyId>,
    ) -> (children:
        Chain<CheckedPattern>)
        requires
            old(self).wf(),
        ensures
            adds_to(old(self)@.st.diagnostics, final(self)@.st.diagnostics),
            final(self).wf(),
            later(old(self)@.types, final(self)@.types),
            (final(self)@, children) == old(self)@.check_children(cx, *payload, *parts),
        decreases payload, 0nat,
    {
        match payload {
            Chain::Empty => Chain::new(),
            Chain::Link(link) => {
                let front = take_front(parts, &link.rest);
                let children = self.check_children(cx, &link.rest, &front);
                let part = find_part(parts, &link.rest);
                let child = self.check_pattern(cx, &link.item, part);
                children.with(child)
            },
        }
    }

    pub fn pattern_is_useful(
        &mut self,
        cx: &Context,
        scrutinee: TyId,
        rows: &Chain<Chain<CheckedPattern>>,
        candidate: &CheckedPattern,
    ) -> (result: bool)
        requires
            old(self).wf(),
        ensures
            adds_to(old(self)@.st.diagnostics, final(self)@.st.diagnostics),
            final(self).wf(),
            later(old(self)@.types, final(self)@.types),
            (final(self)@, result) == old(self)@.pattern_is_useful(
                cx,
                scrutinee,
                *rows,
                *candidate,
            ),
    {
        proof {
            reveal(World::pattern_is_useful);
        }
        pattern_vector_useful(
            cx,
            &mut self.types,
            &Chain::new().with(scrutinee),
            rows,
            &Chain::new().with(candidate.clone()),
            0,
        )
    }

    pub fn check_exhaustive(
        &mut self,
        cx: &Context,
        scrutinee: TyId,
        rows: &Chain<Chain<CheckedPattern>>,
        span: Span,
    )
        requires
            old(self).wf(),
        ensures
            adds_to(old(self)@.st.diagnostics, final(self)@.st.diagnostics),
            final(self).wf(),
            later(old(self)@.types, final(self)@.types),
            final(self)@ == old(self)@.check_exhaustive(cx, scrutinee, *rows, span),
    {
        proof {
            reveal(World::check_exhaustive);
        }
        if self.pattern_is_useful(cx, scrutinee, rows, &CheckedPattern::Wildcard) {
            self.text_error(
                "NonExhaustiveMatch",
                "match does not cover every possible value",
                span,
            );
        }
    }
}

impl World {
    /// Whether a pattern matches a value that the rows do not.
    #[verifier::opaque]
    pub open spec fn pattern_is_useful(
        self,
        cx: &Context,
        scrutinee: TyId,
        rows: Chain<Chain<CheckedPattern>>,
        candidate: CheckedPattern,
    ) -> (World, bool) {
        let (types, result) = useful(
            cx,
            self.types,
            one(scrutinee),
            rows,
            one(candidate),
            0,
        );
        (World { types, ..self }, result)
    }

    /// A match whose rows leave out a value is reported.
    #[verifier::opaque]
    pub open spec fn check_exhaustive(
        self,
        cx: &Context,
        scrutinee: TyId,
        rows: Chain<Chain<CheckedPattern>>,
        span: Span,
    ) -> World {
        let (w, open_value) = self.pattern_is_useful(
            cx,
            scrutinee,
            rows,
            CheckedPattern::Wildcard,
        );
        if open_value {
            w.text_error(
                "NonExhaustiveMatch",
                "match does not cover every possible value",
                span,
            )
        } else {
            w
        }
    }
}

} // verus!
