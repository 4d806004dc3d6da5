//! Which method a name reaches on a value.

use vstd::prelude::*;

use crate::calls::{
    bound_candidates, concept_candidates, inherent_candidates, methods_named, BoundCandidate,
    InherentCandidate,
};
use crate::chain::{lemma_len, Chain};
use crate::conformance::Goal;
use crate::diagnostics::reported;
use crate::hir::{at, Definition, DefinitionKind, Expr, Visibility};
use crate::ids::{DefId, TyId};
use crate::methods::DotCall;
use crate::semantics::CallTarget;
use crate::state::{Context, World};
use crate::substitution::Substitution;
use crate::table::has_id;
use crate::ty::TyData;
use crate::unify::unified;

verus! {

/// The method can be called in the body: it is public, or of a module whose
/// private names the body sees.
pub open spec fn is_within_reach(cx: &Context, method: DefId) -> bool {
    ||| match at(cx.program.definitions@, method.0) {
        Some(found) => found.visibility == Visibility::Public,
        None => false,
    }
    ||| cx.program.sees_private(
        cx.program.module_of(cx.environment.owner),
        cx.program.module_of(method),
    )
}

proof fn lemma_pushed<T>(list: Chain<T>, last: T, item: T)
    ensures
        list.pushed(last).seq().contains(item) <==> list.seq().contains(item) || item == last,
{
    let longer = list.pushed(last).seq();
    assert(longer == list.seq().push(last));
    assert(longer[list.seq().len() as int] == last);
    if list.seq().contains(item) {
        let i = choose|i: int| 0 <= i < list.seq().len() && list.seq()[i] == item;
        assert(longer[i] == item);
    }
}

proof fn lemma_methods_named(
    cx: &Context,
    methods: Chain<DefId>,
    name: Seq<char>,
    target: TyId,
    substitution: Substitution,
    list: Chain<InherentCandidate>,
    found: InherentCandidate,
)
    ensures
        methods_named(cx, methods, name, target, substitution, list).seq().contains(found)
            <==> list.seq().contains(found) || found.target == target && found.substitution
            == substitution && methods.seq().contains(found.method) && cx.program.has_name(
            found.method,
            name,
        ) && is_within_reach(cx, found.method),
    decreases methods,
{
    if methods is Link {
        let rest = methods.without_last();
        let last = methods->0.item;
        lemma_methods_named(cx, rest, name, target, substitution, list, found);
        let before = methods_named(cx, rest, name, target, substitution, list);
        lemma_pushed(rest, last, found.method);
        lemma_pushed(
            before,
            InherentCandidate { method: last, target, substitution },
            found,
        );
        if methods.seq().contains(found.method) {
            assert(found == (InherentCandidate {
                method: found.method,
                target: found.target,
                substitution: found.substitution,
            }));
        }
    }
}

/// The definition is a method block for a type that the receiver's type is an
/// instance of, with the method among its own; a block of tests is for its own
/// module.
pub open spec fn offers(
    cx: &Context,
    types: Seq<crate::ty::TyData>,
    item: Definition,
    receiver: TyId,
    found: InherentCandidate,
) -> bool {
    match item.kind {
        DefinitionKind::InherentImpl { generic_params: _, target, methods } => {
            &&& cx.type_refs.lookup(target.0) == Some(found.target)
            &&& methods.seq().contains(found.method)
            &&& unified(types, found.target, receiver, Substitution::empty()) == (
                found.substitution,
                true,
            )
            &&& cx.program.holds_tests(item.module) ==> item.module == cx.program.module_of(
                cx.environment.owner,
            )
        },
        _ => false,
    }
}

/// The methods that a name may reach through method blocks are exactly those of
/// that name, within reach, of blocks for a type that the receiver's type is an
/// instance of.
pub proof fn law_own_methods(
    cx: &Context,
    types: Seq<TyData>,
    receiver: TyId,
    name: Seq<char>,
    count: nat,
    found: InherentCandidate,
)
    requires
        count <= cx.program.definitions@.len(),
    ensures
        inherent_candidates(cx, types, receiver, name, count).seq().contains(found)
            <==> cx.program.has_name(found.method, name) && is_within_reach(cx, found.method)
            && exists|i: int|
            0 <= i < count && offers(
                cx,
                types,
                #[trigger] cx.program.definitions@[i],
                receiver,
                found,
            ),
    decreases count,
{
    if count > 0 {
        let before = (count - 1) as nat;
        let item = cx.program.definitions@[count - 1];
        law_own_methods(cx, types, receiver, name, before, found);
        let list = inherent_candidates(cx, types, receiver, name, before);
        match item.kind {
            DefinitionKind::InherentImpl { generic_params: _, target: written, methods } => {
                match cx.type_refs.lookup(written.0) {
                    Some(target) => {
                        let (substitution, fits) = unified(
                            types,
                            target,
                            receiver,
                            Substitution::empty(),
                        );
                        lemma_methods_named(
                            cx,
                            methods,
                            name,
                            target,
                            substitution,
                            list,
                            found,
                        );
                    },
                    None => {},
                }
            },
            _ => {},
        }
        if offers(cx, types, item, receiver, found) {
            assert(offers(cx, types, cx.program.definitions@[count - 1], receiver, found));
        }
        if exists|i: int|
            0 <= i < before && offers(
                cx,
                types,
                #[trigger] cx.program.definitions@[i],
                receiver,
                found,
            ) {
            let i = choose|i: int|
                0 <= i < before && offers(
                    cx,
                    types,
                    #[trigger] cx.program.definitions@[i],
                    receiver,
                    found,
                );
            assert(offers(cx, types, cx.program.definitions@[i], receiver, found));
        }
        if exists|i: int|
            0 <= i < count && offers(
                cx,
                types,
                #[trigger] cx.program.definitions@[i],
                receiver,
                found,
            ) {
            let i = choose|i: int|
                0 <= i < count && offers(
                    cx,
                    types,
                    #[trigger] cx.program.definitions@[i],
                    receiver,
                    found,
                );
            if i < before {
                assert(offers(cx, types, cx.program.definitions@[i], receiver, found));
            }
        }
    }
}

/// The bounds that provide a method are exactly those on the receiver's type
/// whose concept requires a method of that name; each is told by its position.
pub proof fn law_bounded_methods(
    cx: &Context,
    bounds: Chain<Goal>,
    receiver: TyId,
    name: Seq<char>,
    found: BoundCandidate,
)
    requires
        bounds.seq().len() <= usize::MAX,
    ensures
        bound_candidates(cx, bounds, receiver, name).seq().contains(found) <==> found.index
            < bounds.seq().len() && bounds.seq()[found.index as int] == found.bound
            && found.bound.self_ty == receiver && cx.program.requirement_named(
            found.bound.concept.concept,
            name,
        ) == Some(found.requirement),
    decreases bounds,
{
    if bounds is Link {
        let rest = bounds.without_last();
        let last = bounds->0.item;
        lemma_len(rest);
        assert(bounds.seq() == rest.seq().push(last));
        law_bounded_methods(cx, rest, receiver, name, found);
        let list = bound_candidates(cx, rest, receiver, name);
        assert(rest.count() == rest.seq().len());
        if found.index < rest.seq().len() {
            assert(bounds.seq()[found.index as int] == rest.seq()[found.index as int]);
        }
        match cx.program.requirement_named(last.concept.concept, name) {
            Some(requirement) => {
                lemma_pushed(
                    list,
                    BoundCandidate { index: rest.count(), bound: last, requirement },
                    found,
                );
                assert(found == (BoundCandidate {
                    index: found.index,
                    bound: found.bound,
                    requirement: found.requirement,
                }));
            },
            None => {},
        }
    }
}

/// Where no bound provides a method it may be found elsewhere; where more than
/// one does, that is reported.
pub proof fn law_one_bound(
    w: World,
    cx: &Context,
    e: Expr,
    receiver_ty: TyId,
    name: String,
)
    ensures
        ({
            let found = bound_candidates(cx, cx.environment.bounds, receiver_ty, name@);
            let (after, dot) = w.bound_call(cx, e, receiver_ty, name);
            &&& found.seq().len() == 0 ==> after == w && dot is Pass
            &&& found.seq().len() > 1 ==> dot is Failed && reported(
                w.st.diagnostics,
                after.st.diagnostics,
                "AmbiguousConceptMethod",
                e.span,
            )
            &&& found.seq().len() == 1 ==> after.st == w.st && match dot {
                DotCall::Found(plan) => plan.target == (CallTarget::StaticConcept {
                    requirement: found.seq()[0].requirement,
                }),
                DotCall::Pass => true,
                DotCall::Failed => false,
            }
        }),
{
    reveal(World::bound_call);
    reveal(World::report);
    reveal_with_fuel(Chain::<_>::seq, 3);
    lemma_len(bound_candidates(cx, cx.environment.bounds, receiver_ty, name@));
}

/// Exactly one implementation must provide a method: where none does the name
/// is unknown, and where more than one does it is ambiguous; both are reported.
pub proof fn law_one_implementation(
    w: World,
    cx: &Context,
    e: Expr,
    receiver: Expr,
    receiver_ty: TyId,
    name: String,
)
    ensures
        ({
            let own = inherent_candidates(
                cx,
                w.types,
                receiver_ty,
                name@,
                cx.program.definitions@.len(),
            );
            let of_concepts = concept_candidates(
                cx,
                w.types,
                *cx.visible_concepts,
                receiver_ty,
                name@,
            ).1;
            let (after, plan) = w.plan_candidate_call(cx, e, receiver, receiver_ty, name);
            let total = own.seq().len() + of_concepts.seq().len();
            &&& total == 0 ==> plan is None && reported(
                w.st.diagnostics,
                after.st.diagnostics,
                "UnknownName",
                e.span,
            )
            &&& total > 1 ==> plan is None && reported(
                w.st.diagnostics,
                after.st.diagnostics,
                "AmbiguousConceptMethod",
                e.span,
            )
            &&& total == 1 && plan is Some ==> if own.seq().len() == 1 {
                plan->0.target == CallTarget::InherentMethod(own.seq()[0].method)
                    && plan->0.substitution == own.seq()[0].substitution
            } else {
                plan->0.target == (CallTarget::StaticConcept {
                    requirement: of_concepts.seq()[0].requirement,
                }) && plan->0.witness == Some(of_concepts.seq()[0].witness)
            }
        }),
{
    reveal(World::plan_candidate_call);
    reveal(World::plan_inherent_call);
    reveal(World::plan_concept_call);
    reveal(World::ambiguous_method);
    reveal(World::report);
    reveal_with_fuel(Chain::<_>::seq, 3);
    let own = inherent_candidates(
        cx,
        w.types,
        receiver_ty,
        name@,
        cx.program.definitions@.len(),
    );
    let of_concepts = concept_candidates(
        cx,
        w.types,
        *cx.visible_concepts,
        receiver_ty,
        name@,
    ).1;
    lemma_len(own);
    lemma_len(of_concepts);
}

/// A method on a value that must be scoped needs a receiver that is.
pub proof fn law_scoped_receivers(w: World, cx: &Context, receiver: Expr, receiver_ty: TyId)
    ensures
        ({
            let (asked, must) = w.has_must_scope_obligation(cx, receiver_ty);
            let after = w.require_scoped(cx, receiver, receiver_ty);
            let scoped = match w.place_of(receiver.id) {
                Some(place) => place.projections is Empty && match place.root {
                    crate::semantics::PlaceRoot::Local(local) => has_id(
                        w.st.scoped_locals,
                        local.0,
                    ),
                    _ => false,
                },
                None => false,
            };
            &&& must && !scoped ==> reported(
                asked.st.diagnostics,
                after.st.diagnostics,
                "MustScopeRequiresScoped",
                receiver.span,
            )
            &&& !must || scoped ==> after == asked
        }),
{
    reveal(World::require_scoped);
    reveal(World::report);
}

} // verus!
