//! Which implementations a module may use. The rule for implementations of
//! concepts is that for the methods of types: what tests declare is seen only in
//! those tests.

use vstd::prelude::*;

use crate::chain::Chain;
use crate::conformance::{Bucket, ImplHeader, ImplIndex};
use crate::hir::Program;
use crate::ids::ModuleId;

verus! {

/// Where an implementation stands, or a question about implementations.
#[derive(Clone, Copy, Debug, PartialEq, Eq, Structural)]
pub enum ImplScope {
    /// A module of the program.
    Production,
    /// A module that holds the tests of another.
    Companion(ModuleId),
}

impl ImplScope {
    /// The scope of a module.
    pub open spec fn of(program: &Program, module: ModuleId) -> ImplScope {
        if program.holds_tests(module) {
            ImplScope::Companion(module)
        } else {
            ImplScope::Production
        }
    }

    pub fn for_module(program: &Program, module: ModuleId) -> (scope: ImplScope)
        ensures
            scope == ImplScope::of(program, module),
    {
        if program.is_test_companion(module) {
            ImplScope::Companion(module)
        } else {
            ImplScope::Production
        }
    }

    /// What stands in `other` may be used here: what the program declares is
    /// used everywhere, what tests declare only in those tests.
    pub open spec fn sees(self, other: ImplScope) -> bool {
        other is Production || other == self
    }

    pub fn admits(self, other: ImplScope) -> (admits: bool)
        ensures
            admits == self.sees(other),
    {
        other == ImplScope::Production || other == self
    }
}

/// The scope of an implementation.
pub open spec fn scope_of_header(program: &Program, header: ImplHeader) -> ImplScope {
    ImplScope::of(program, program.module_of(header.definition))
}

/// Those of the implementations that may be used in a scope.
pub open spec fn headers_in_scope(
    program: &Program,
    scope: ImplScope,
    headers: Chain<ImplHeader>,
) -> Chain<ImplHeader>
    decreases headers,
{
    match headers {
        Chain::Empty => Chain::Empty,
        Chain::Link(link) => {
            let before = headers_in_scope(program, scope, link.rest);
            if scope.sees(scope_of_header(program, link.item)) {
                before.pushed(link.item)
            } else {
                before
            }
        },
    }
}

fn keep_headers(program: &Program, scope: ImplScope, headers: &Chain<ImplHeader>) -> (kept: Chain<
    ImplHeader,
>)
    ensures
        kept == headers_in_scope(program, scope, *headers),
    decreases headers,
{
    match headers {
        Chain::Empty => Chain::new(),
        Chain::Link(link) => {
            let before = keep_headers(program, scope, &link.rest);
            let own = ImplScope::for_module(program, program.module(link.item.definition));
            if scope.admits(own) {
                before.with(link.item.clone())
            } else {
                before
            }
        },
    }
}

/// The buckets with what may be used in a scope.
pub open spec fn buckets_in_scope(
    program: &Program,
    scope: ImplScope,
    buckets: Chain<Bucket>,
) -> Chain<Bucket>
    decreases buckets,
{
    match buckets {
        Chain::Empty => Chain::Empty,
        Chain::Link(link) => buckets_in_scope(program, scope, link.rest).pushed(
            Bucket {
                concept: link.item.concept,
                headers: headers_in_scope(program, scope, link.item.headers),
            },
        ),
    }
}

fn keep_buckets(program: &Program, scope: ImplScope, buckets: &Chain<Bucket>) -> (kept: Chain<
    Bucket,
>)
    ensures
        kept == buckets_in_scope(program, scope, *buckets),
    decreases buckets,
{
    match buckets {
        Chain::Empty => Chain::new(),
        Chain::Link(link) => keep_buckets(program, scope, &link.rest).with(
            Bucket {
                concept: link.item.concept,
                headers: keep_headers(program, scope, &link.item.headers),
            },
        ),
    }
}

impl ImplIndex {
    /// The implementations that a module may use.
    pub open spec fn seen_from(self, program: &Program, module: ModuleId) -> ImplIndex {
        ImplIndex {
            buckets: buckets_in_scope(program, ImplScope::of(program, module), self.buckets),
        }
    }

    pub fn in_scope_of(&self, program: &Program, module: ModuleId) -> (index: ImplIndex)
        ensures
            index == self.seen_from(program, module),
    {
        let scope = ImplScope::for_module(program, module);
        ImplIndex { buckets: keep_buckets(program, scope, &self.buckets) }
    }
}

/// A module may use an implementation exactly if it is one of the program, or
/// one of the tests that the module holds.
pub proof fn law_headers_in_scope(
    program: &Program,
    scope: ImplScope,
    headers: Chain<ImplHeader>,
    header: ImplHeader,
)
    ensures
        headers_in_scope(program, scope, headers).seq().contains(header) <==> headers.seq().contains(
            header,
        ) && scope.sees(scope_of_header(program, header)),
    decreases headers,
{
    if headers is Link {
        let rest = headers.without_last();
        let last = headers->0.item;
        law_headers_in_scope(program, scope, rest, header);
        assert(headers == rest.pushed(last));
        assert(headers.seq() == rest.seq().push(last));
        let kept = headers_in_scope(program, scope, rest);
        assert(kept.pushed(last).seq() == kept.seq().push(last));
        lemma_push_contains(rest.seq(), last, header);
        lemma_push_contains(kept.seq(), last, header);
    } else {
        assert(headers.seq() =~= Seq::<ImplHeader>::empty());
        assert(headers_in_scope(program, scope, headers).seq() =~= Seq::<ImplHeader>::empty());
    }
}

proof fn lemma_push_contains(list: Seq<ImplHeader>, last: ImplHeader, header: ImplHeader)
    ensures
        list.push(last).contains(header) <==> list.contains(header) || header == last,
{
    let longer = list.push(last);
    if list.contains(header) {
        let i = list.index_of(header);
        assert(longer[i] == header);
    }
    if header == last {
        assert(longer[list.len() as int] == header);
    }
    if longer.contains(header) && header != last {
        let i = longer.index_of(header);
        assert(list[i] == header);
    }
}

proof fn lemma_all_in_scope(program: &Program, scope: ImplScope, headers: Chain<ImplHeader>)
    requires
        forall|module: ModuleId| !program.holds_tests(module),
    ensures
        headers_in_scope(program, scope, headers) == headers,
    decreases headers,
{
    if headers is Link {
        lemma_all_in_scope(program, scope, headers.without_last());
    }
}

/// In a program without tests of its modules, every implementation may be used
/// everywhere.
pub proof fn law_no_tests_no_scopes(program: &Program, module: ModuleId, buckets: Chain<Bucket>)
    requires
        forall|module: ModuleId| !program.holds_tests(module),
    ensures
        (ImplIndex { buckets }).seen_from(program, module) == (ImplIndex { buckets }),
    decreases buckets,
{
    if buckets is Link {
        let rest = buckets.without_last();
        let last = buckets->0.item;
        law_no_tests_no_scopes(program, module, rest);
        lemma_all_in_scope(program, ImplScope::of(program, module), last.headers);
    }
}

} // verus!
