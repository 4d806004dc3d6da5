//! Which matches are complete, and what the variants of types hold.

use vstd::prelude::*;

use crate::borrows::{crossed_invariant, guarded_owner};
use crate::chain::Chain;
use crate::diagnostics::reported;
use crate::hir::{DefinitionKind, Literal, Path};
use crate::ids::{DefId, Span, TyId};
use crate::patterns::{
    any_useful, default_rows, last_name, literal_constructor, one, payload_of, specialized_rows,
    stacked, useful, variant_named, with_wildcards, CheckedPattern, PatternHead, PatternVariant,
};
use crate::state::{Context, World};
use crate::ty::{builtin_ty, ty_data, BuiltinType, TyData};

verus! {

/// One of the rows takes every value.
pub open spec fn takes_all(rows: Chain<Chain<CheckedPattern>>) -> bool
    decreases rows,
{
    match rows {
        Chain::Empty => false,
        Chain::Link(link) => takes_all(link.rest) || match link.item {
            Chain::Link(row) => row.item is Wildcard,
            Chain::Empty => false,
        },
    }
}

/// One of the rows takes the truth value.
pub open spec fn takes_bool(rows: Chain<Chain<CheckedPattern>>, value: bool) -> bool
    decreases rows,
{
    match rows {
        Chain::Empty => false,
        Chain::Link(link) => takes_bool(link.rest, value) || match link.item {
            Chain::Link(row) => match row.item {
                CheckedPattern::Wildcard => true,
                CheckedPattern::Literal(Literal::Bool(found)) => found == value,
                _ => false,
            },
            Chain::Empty => false,
        },
    }
}

proof fn lemma_default(rows: Chain<Chain<CheckedPattern>>)
    ensures
        default_rows(rows) is Link <==> takes_all(rows),
    decreases rows,
{
    if rows is Link {
        lemma_default(rows.without_last());
    }
}

proof fn lemma_specialized(rows: Chain<Chain<CheckedPattern>>, value: bool)
    ensures
        specialized_rows(
            rows,
            PatternHead::Literal(Literal::Bool(value)),
            Chain::Empty,
        ) is Link <==> takes_bool(rows, value),
    decreases rows,
{
    if rows is Link {
        lemma_specialized(rows.without_last(), value);
    }
}

/// A match on numbers or texts is complete exactly if one of its arms takes
/// every value; one on truth values if each of the two is taken. What is not
/// complete is reported.
pub proof fn law_complete_matches(
    w: World,
    cx: &Context,
    scrutinee: TyId,
    rows: Chain<Chain<CheckedPattern>>,
    span: Span,
)
    ensures
        ({
            let after = w.check_exhaustive(cx, scrutinee, rows, span);
            let complete = match w.data(scrutinee) {
                TyData::Builtin(BuiltinType::Bool) => Some(
                    takes_bool(rows, true) && takes_bool(rows, false),
                ),
                TyData::Builtin(BuiltinType::Unit) => None,
                TyData::Builtin(_) => Some(takes_all(rows)),
                TyData::Param(_) => Some(takes_all(rows)),
                _ => None,
            };
            &&& complete == Some(true) ==> after == w
            &&& complete == Some(false) ==> reported(
                w.st.diagnostics,
                after.st.diagnostics,
                "NonExhaustiveMatch",
                span,
            )
        }),
{
    reveal(World::check_exhaustive);
    reveal(World::pattern_is_useful);
    reveal(World::report);
    reveal_with_fuel(useful, 3);
    reveal_with_fuel(any_useful, 3);
    lemma_default(rows);
    lemma_specialized(rows, true);
    lemma_specialized(rows, false);
    let wild: Chain<CheckedPattern> = one(CheckedPattern::Wildcard);
    let none: Chain<CheckedPattern> = Chain::Empty;
    let nothing: Chain<TyId> = Chain::Empty;
    assert(wild is Link && wild.without_last() is Empty);
    assert(stacked(nothing, nothing) is Empty);
    assert(with_wildcards(none, nothing) is Empty);
    if w.data(scrutinee) == TyData::Builtin(BuiltinType::Bool) {
        let ways = one(literal_constructor(Literal::Bool(false))).pushed(
            literal_constructor(Literal::Bool(true)),
        );
        let first = one(literal_constructor(Literal::Bool(false)));
        assert(ways.without_last() == first);
        assert(first.without_last() is Empty);
        assert(any_useful(cx, w.types, first, nothing, rows, none, 1) == (
            w.types,
            !takes_bool(rows, false),
        ));
        assert(any_useful(cx, w.types, ways, nothing, rows, none, 1) == (
            w.types,
            !takes_bool(rows, false) || !takes_bool(rows, true),
        ));
    }
}

/// What the variants of options, results and outcomes hold.
pub proof fn law_variant_parts(cx: &Context, types: Seq<TyData>, expected: TyId)
    ensures
        match ty_data(types, expected) {
            TyData::Option(element) => {
                &&& payload_of(cx, types, PatternVariant::OptionSome, expected).1.seq() == seq![
                    element,
                ]
                &&& payload_of(cx, types, PatternVariant::OptionNone, expected).1 is Empty
            },
            TyData::Result { ok, error } => {
                &&& payload_of(cx, types, PatternVariant::ResultOk, expected).1.seq() == seq![ok]
                &&& payload_of(cx, types, PatternVariant::ResultErr, expected).1.seq() == seq![
                    error,
                ]
            },
            TyData::TaskOutcome(output) => {
                &&& payload_of(cx, types, PatternVariant::TaskCompleted, expected).1.seq() == seq![
                    output,
                ]
                &&& payload_of(cx, types, PatternVariant::TaskFaulted, expected).1.seq() == seq![
                    builtin_ty(BuiltinType::TaskFault),
                ]
                &&& payload_of(cx, types, PatternVariant::TaskCancelled, expected).1 is Empty
            },
            _ => true,
        },
{
    reveal_with_fuel(Chain::<_>::seq, 3);
    match ty_data(types, expected) {
        TyData::Option(element) => {
            assert(one(element).seq() =~= seq![element]);
        },
        TyData::Result { ok, error } => {
            assert(one(ok).seq() =~= seq![ok]);
            assert(one(error).seq() =~= seq![error]);
        },
        TyData::TaskOutcome(output) => {
            assert(one(output).seq() =~= seq![output]);
            let fault = builtin_ty(BuiltinType::TaskFault);
            assert(one(fault).seq() =~= seq![fault]);
        },
        _ => {},
    }
}

/// The variants of options, results and outcomes bear their own names; `None`
/// and `Cancelled` have no parts. A declared variant is the one of that name of
/// the matched value's own type.
pub proof fn law_variant_names(cx: &Context, data: TyData, path: Path, bare: bool, name: Seq<char>)
    requires
        last_name(path) == Some(name),
    ensures
        ({
            let found = variant_named(cx, data, path, None, bare);
            match data {
                TyData::Option(_) => {
                    &&& name == "Some"@ ==> found == Some(PatternVariant::OptionSome)
                    &&& name == "None"@ && bare ==> found == Some(PatternVariant::OptionNone)
                    &&& found is Some ==> name == "Some"@ || name == "None"@
                },
                TyData::Result { ok: _, error: _ } => {
                    &&& name == "Ok"@ ==> found == Some(PatternVariant::ResultOk)
                    &&& name == "Err"@ ==> found == Some(PatternVariant::ResultErr)
                    &&& found is Some ==> name == "Ok"@ || name == "Err"@
                },
                TyData::TaskOutcome(_) => {
                    &&& name == "Completed"@ ==> found == Some(PatternVariant::TaskCompleted)
                    &&& name == "Faulted"@ ==> found == Some(PatternVariant::TaskFaulted)
                    &&& name == "Cancelled"@ && bare ==> found == Some(
                        PatternVariant::TaskCancelled,
                    )
                    &&& found is Some ==> name == "Completed"@ || name == "Faulted"@ || name
                        == "Cancelled"@
                },
                TyData::Nominal { definition, arguments: _ } => match cx.program.kind_of(
                    definition,
                ) {
                    Some(DefinitionKind::Enum { generic_params: _, variants }) =>
                        match cx.program.member_named(variants, name) {
                            Some(variant) => found == Some(PatternVariant::User(variant)),
                            None => found is None,
                        },
                    _ => found is None,
                },
                _ => found is None,
            }
        }),
{
    reveal_strlit("Some");
    reveal_strlit("None");
    reveal_strlit("Ok");
    reveal_strlit("Err");
    reveal_strlit("Completed");
    reveal_strlit("Faulted");
    reveal_strlit("Cancelled");
    assert("Some"@.len() == 4 && "None"@.len() == 4 && "Ok"@.len() == 2 && "Err"@.len() == 3);
    assert("Completed"@.len() == 9 && "Faulted"@.len() == 7 && "Cancelled"@.len() == 9);
    assert("Some"@[0] == 'S' && "None"@[0] == 'N');
    assert("Completed"@[1] == 'o' && "Cancelled"@[1] == 'a');
}

/// A write may go through the invariant of the type whose method it stands in,
/// at the first step only, which its end restores; a write that goes through
/// another's invariant, or further in, is refused.
pub proof fn law_guarded_writes(cx: &Context, fields: Chain<DefId>, own: Option<DefId>)
    ensures
        crossed_invariant(cx, fields, own) is None <==> exists|i: int|
            0 <= i < fields.seq().len() && guarded_owner(cx, #[trigger] fields.seq()[i]) is Some
                && (i > 0 || guarded_owner(cx, fields.seq()[i]) != own),
        crossed_invariant(cx, fields, own) == Some(true) ==> fields.seq().len() > 0
            && guarded_owner(cx, fields.seq()[0]) is Some && guarded_owner(cx, fields.seq()[0])
            == own,
        crossed_invariant(cx, fields, own) == Some(false) ==> forall|i: int|
            0 <= i < fields.seq().len() ==> guarded_owner(cx, #[trigger] fields.seq()[i]) is None,
    decreases fields,
{
    if fields is Link {
        let rest = fields.without_last();
        let last = fields->0.item;
        let count = rest.seq().len() as int;
        law_guarded_writes(cx, rest, own);
        assert(fields.seq() == rest.seq().push(last));
        assert(fields.seq()[count] == last);
        assert forall|i: int| 0 <= i < count implies rest.seq()[i] == #[trigger] fields.seq()[i]
            by {}
        crate::chain::lemma_len(rest);
        if crossed_invariant(cx, rest, own) is None {
            let i = choose|i: int|
                0 <= i < rest.seq().len() && guarded_owner(cx, #[trigger] rest.seq()[i]) is Some
                    && (i > 0 || guarded_owner(cx, rest.seq()[i]) != own);
            assert(fields.seq()[i] == rest.seq()[i]);
        } else {
            assert forall|i: int|
                0 <= i < count && guarded_owner(cx, #[trigger] fields.seq()[i])
                    is Some implies i == 0 && guarded_owner(cx, fields.seq()[i]) == own by {
                assert(rest.seq()[i] == fields.seq()[i]);
            }
        }
    }
}

} // verus!
