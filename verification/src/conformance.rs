//! Deterministic concept conformance indexing and proof search.

use std::rc::Rc;
use vstd::prelude::*;

use crate::chain::{same_length, Chain, Duplicate, Same};
#[allow(unused_imports)]
use crate::heads::can_meet;
use crate::heads::heads_can_meet;
use crate::ids::{DefId, GenericParamId, TyId};
use crate::substitution::Substitution;
use crate::ty::{AssociatedTypeBinding, ConceptInstance, TyData, TyInterner};
#[allow(unused_imports)]
use crate::ty::{all_below, ty_data, types_wf};

verus! {

/// That a type conforms to a concept.
pub struct Goal {
    pub self_ty: TyId,
    pub concept: ConceptInstance,
}

impl Same for Goal {
    fn same(&self, other: &Self) -> (equal: bool) {
        self.self_ty == other.self_ty && self.concept.same(&other.concept)
    }
}

impl Clone for Goal {
    fn clone(&self) -> (copy: Self)
        ensures
            copy == *self,
    {
        Goal { self_ty: self.self_ty, concept: self.concept.clone() }
    }
}

impl Duplicate for Goal {
    fn duplicate(&self) -> (copy: Self) {
        self.clone()
    }
}

/// The conformances that generic parameters are known to have.
pub struct ParamEnv {
    pub bounds: Chain<Goal>,
}

impl Default for ParamEnv {
    fn default() -> (environment: Self)
        ensures
            environment == (ParamEnv { bounds: Chain::Empty }),
    {
        ParamEnv { bounds: Chain::new() }
    }
}

/// What an implementation promises: that `target` conforms to `concept` where
/// the conditions hold.
pub struct ImplHeader {
    pub definition: DefId,
    pub generic_params: Chain<GenericParamId>,
    pub concept: DefId,
    pub target: TyId,
    pub conditions: Chain<Goal>,
    pub associated_types: Chain<AssociatedTypeBinding>,
}

impl Clone for ImplHeader {
    fn clone(&self) -> (copy: Self)
        ensures
            copy == *self,
    {
        ImplHeader {
            definition: self.definition,
            generic_params: self.generic_params.clone(),
            concept: self.concept,
            target: self.target,
            conditions: self.conditions.clone(),
            associated_types: self.associated_types.clone(),
        }
    }
}

impl Duplicate for ImplHeader {
    fn duplicate(&self) -> (copy: Self) {
        self.clone()
    }
}

/// The implementations of one concept.
pub struct Bucket {
    pub concept: DefId,
    pub headers: Chain<ImplHeader>,
}

impl Clone for Bucket {
    fn clone(&self) -> (copy: Self)
        ensures
            copy == *self,
    {
        Bucket { concept: self.concept, headers: self.headers.clone() }
    }
}

/// The implementations of a program by concept, in the order of the concepts.
pub struct ImplIndex {
    pub buckets: Chain<Bucket>,
}

/// The implementations of `concept`.
pub open spec fn bucket_headers(buckets: Chain<Bucket>, concept: DefId) -> Chain<ImplHeader>
    decreases buckets,
{
    match buckets {
        Chain::Empty => Chain::Empty,
        Chain::Link(link) => if link.item.concept == concept {
            link.item.headers
        } else {
            bucket_headers(link.rest, concept)
        },
    }
}

/// The buckets with `header` behind the implementations of its concept.
pub open spec fn bucket_inserted(buckets: Chain<Bucket>, header: ImplHeader) -> Chain<Bucket>
    decreases buckets,
{
    let alone = Bucket { concept: header.concept, headers: Chain::Empty.pushed(header) };
    match buckets {
        Chain::Empty => buckets.pushed(alone),
        Chain::Link(link) => if link.item.concept.0 < header.concept.0 {
            buckets.pushed(alone)
        } else if link.item.concept == header.concept {
            link.rest.pushed(
                Bucket {
                    concept: header.concept,
                    headers: link.item.headers.pushed(header),
                },
            )
        } else {
            bucket_inserted(link.rest, header).pushed(link.item)
        },
    }
}

/// The buckets are in the order of their concepts, and no concept has two.
pub open spec fn buckets_ordered(buckets: Chain<Bucket>) -> bool
    decreases buckets,
{
    match buckets {
        Chain::Empty => true,
        Chain::Link(link) => buckets_ordered(link.rest) && match link.rest {
            Chain::Empty => true,
            Chain::Link(before) => before.item.concept.0 < link.item.concept.0,
        },
    }
}

/// An ordered list with `header` behind those that do not come after it.
pub open spec fn header_placed(headers: Chain<ImplHeader>, header: ImplHeader) -> Chain<
    ImplHeader,
>
    decreases headers,
{
    match headers {
        Chain::Empty => headers.pushed(header),
        Chain::Link(link) => if link.item.definition.0 <= header.definition.0 {
            headers.pushed(header)
        } else {
            header_placed(link.rest, header).pushed(link.item)
        },
    }
}

/// The headers in the order of their definitions. Headers of one definition
/// keep their order.
pub open spec fn headers_sorted(headers: Chain<ImplHeader>) -> Chain<ImplHeader>
    decreases headers,
{
    match headers {
        Chain::Empty => headers,
        Chain::Link(link) => header_placed(headers_sorted(link.rest), link.item),
    }
}

/// The headers are in the order of their definitions.
pub open spec fn headers_ordered(headers: Chain<ImplHeader>) -> bool
    decreases headers,
{
    match headers {
        Chain::Empty => true,
        Chain::Link(link) => headers_ordered(link.rest) && match link.rest {
            Chain::Empty => true,
            Chain::Link(before) => before.item.definition.0 <= link.item.definition.0,
        },
    }
}

/// Each bucket with its headers in order.
pub open spec fn buckets_sorted(buckets: Chain<Bucket>) -> Chain<Bucket>
    decreases buckets,
{
    match buckets {
        Chain::Empty => buckets,
        Chain::Link(link) => buckets_sorted(link.rest).pushed(
            Bucket { concept: link.item.concept, headers: headers_sorted(link.item.headers) },
        ),
    }
}

/// The first header of `definition`.
pub open spec fn header_of(headers: Chain<ImplHeader>, definition: DefId) -> Option<ImplHeader>
    decreases headers,
{
    match headers {
        Chain::Empty => None,
        Chain::Link(link) => match header_of(link.rest, definition) {
            Some(found) => Some(found),
            None => if link.item.definition == definition {
                Some(link.item)
            } else {
                None
            },
        },
    }
}

/// The first header of `definition` in any bucket.
pub open spec fn indexed_header(buckets: Chain<Bucket>, definition: DefId) -> Option<ImplHeader>
    decreases buckets,
{
    match buckets {
        Chain::Empty => None,
        Chain::Link(link) => match indexed_header(link.rest, definition) {
            Some(found) => Some(found),
            None => header_of(link.item.headers, definition),
        },
    }
}

/// Whether pair `left` comes before pair `right` or is equal to it.
pub open spec fn pair_le(left: (DefId, DefId), right: (DefId, DefId)) -> bool {
    left.0.0 < right.0.0 || (left.0 == right.0 && left.1.0 <= right.1.0)
}

/// An ordered list of pairs with one more in its place.
pub open spec fn pair_placed(pairs: Chain<(DefId, DefId)>, pair: (DefId, DefId)) -> Chain<
    (DefId, DefId),
>
    decreases pairs,
{
    match pairs {
        Chain::Empty => pairs.pushed(pair),
        Chain::Link(link) => if pair_le(link.item, pair) {
            pairs.pushed(pair)
        } else {
            pair_placed(link.rest, pair).pushed(link.item)
        },
    }
}

/// `pairs`, with each earlier header whose target may meet that of `right`.
pub open spec fn overlaps_with(
    types: Seq<TyData>,
    earlier: Chain<ImplHeader>,
    right: ImplHeader,
    pairs: Chain<(DefId, DefId)>,
) -> Chain<(DefId, DefId)>
    decreases earlier,
{
    match earlier {
        Chain::Empty => pairs,
        Chain::Link(link) => {
            let before = overlaps_with(types, link.rest, right, pairs);
            if may_unify(types, link.item.target, right.target) {
                pair_placed(before, (link.item.definition, right.definition))
            } else {
                before
            }
        },
    }
}

/// `pairs`, with each two headers of a bucket whose targets may meet.
pub open spec fn bucket_overlaps(
    types: Seq<TyData>,
    headers: Chain<ImplHeader>,
    pairs: Chain<(DefId, DefId)>,
) -> Chain<(DefId, DefId)>
    decreases headers,
{
    match headers {
        Chain::Empty => pairs,
        Chain::Link(link) => overlaps_with(
            types,
            link.rest,
            link.item,
            bucket_overlaps(types, link.rest, pairs),
        ),
    }
}

/// Each two headers of one concept whose targets may meet, in order.
pub open spec fn index_overlaps(types: Seq<TyData>, buckets: Chain<Bucket>) -> Chain<(DefId, DefId)>
    decreases buckets,
{
    match buckets {
        Chain::Empty => Chain::Empty,
        Chain::Link(link) => bucket_overlaps(
            types,
            link.item.headers,
            index_overlaps(types, link.rest),
        ),
    }
}

impl Default for ImplIndex {
    fn default() -> (index: Self)
        ensures
            index == (ImplIndex { buckets: Chain::Empty }),
    {
        ImplIndex { buckets: Chain::new() }
    }
}

impl ImplIndex {
    /// Adds an implementation.
    pub fn insert(&mut self, header: ImplHeader)
        ensures
            final(self).buckets == bucket_inserted(old(self).buckets, header),
    {
        self.buckets = insert_bucket(&self.buckets, header);
    }

    /// Puts the implementations of each concept in the order of their
    /// definitions.
    pub fn finish(&mut self)
        ensures
            final(self).buckets == buckets_sorted(old(self).buckets),
    {
        self.buckets = sort_buckets(&self.buckets);
    }

    /// The implementations of `concept`.
    pub fn for_concept(&self, concept: DefId) -> (headers: Chain<ImplHeader>)
        ensures
            headers == bucket_headers(self.buckets, concept),
    {
        find_bucket(&self.buckets, concept)
    }

    /// The implementation with the given definition.
    pub fn header(&self, definition: DefId) -> (header: Option<&ImplHeader>)
        ensures
            match header {
                Some(found) => indexed_header(self.buckets, definition) == Some(*found),
                None => indexed_header(self.buckets, definition) is None,
            },
    {
        find_indexed_header(&self.buckets, definition)
    }

    /// All pairs of implementations of one concept whose target heads might
    /// overlap, in order. Conditions are ignored on purpose: the rule is
    /// conservative.
    pub fn overlapping_pairs(&self, types: &TyInterner) -> (pairs: Chain<(DefId, DefId)>)
        requires
            types_wf(types@),
        ensures
            pairs == index_overlaps(types@, self.buckets),
    {
        find_index_overlaps(types, &self.buckets)
    }
}

fn insert_bucket(buckets: &Chain<Bucket>, header: ImplHeader) -> (result: Chain<Bucket>)
    ensures
        result == bucket_inserted(*buckets, header),
    decreases buckets,
{
    match &buckets {
        Chain::Empty => buckets.clone().with(
            Bucket { concept: header.concept, headers: Chain::new().with(header) },
        ),
        Chain::Link(link) => if link.item.concept.0 < header.concept.0 {
            buckets.clone().with(
                Bucket { concept: header.concept, headers: Chain::new().with(header) },
            )
        } else if link.item.concept == header.concept {
            link.rest.clone().with(
                Bucket { concept: header.concept, headers: link.item.headers.clone().with(header) },
            )
        } else {
            insert_bucket(&link.rest, header).with(link.item.clone())
        },
    }
}

fn place_header(headers: &Chain<ImplHeader>, header: ImplHeader) -> (result: Chain<ImplHeader>)
    ensures
        result == header_placed(*headers, header),
    decreases headers,
{
    match &headers {
        Chain::Empty => headers.clone().with(header),
        Chain::Link(link) => if link.item.definition.0 <= header.definition.0 {
            headers.clone().with(header)
        } else {
            place_header(&link.rest, header).with(link.item.clone())
        },
    }
}

fn sort_headers(headers: &Chain<ImplHeader>) -> (result: Chain<ImplHeader>)
    ensures
        result == headers_sorted(*headers),
    decreases headers,
{
    match &headers {
        Chain::Empty => Chain::new(),
        Chain::Link(link) => place_header(&sort_headers(&link.rest), link.item.clone()),
    }
}

fn sort_buckets(buckets: &Chain<Bucket>) -> (result: Chain<Bucket>)
    ensures
        result == buckets_sorted(*buckets),
    decreases buckets,
{
    match &buckets {
        Chain::Empty => Chain::new(),
        Chain::Link(link) => sort_buckets(&link.rest).with(
            Bucket { concept: link.item.concept, headers: sort_headers(&link.item.headers) },
        ),
    }
}

fn find_bucket(buckets: &Chain<Bucket>, concept: DefId) -> (headers: Chain<ImplHeader>)
    ensures
        headers == bucket_headers(*buckets, concept),
    decreases buckets,
{
    match &buckets {
        Chain::Empty => Chain::new(),
        Chain::Link(link) => if link.item.concept == concept {
            link.item.headers.clone()
        } else {
            find_bucket(&link.rest, concept)
        },
    }
}

fn find_header(headers: &Chain<ImplHeader>, definition: DefId) -> (header: Option<&ImplHeader>)
    ensures
        match header {
            Some(found) => header_of(*headers, definition) == Some(*found),
            None => header_of(*headers, definition) is None,
        },
    decreases headers,
{
    match &headers {
        Chain::Empty => None,
        Chain::Link(link) => match find_header(&link.rest, definition) {
            Some(found) => Some(found),
            None => if link.item.definition == definition {
                Some(&link.item)
            } else {
                None
            },
        },
    }
}

fn find_indexed_header(buckets: &Chain<Bucket>, definition: DefId) -> (header: Option<&ImplHeader>)
    ensures
        match header {
            Some(found) => indexed_header(*buckets, definition) == Some(*found),
            None => indexed_header(*buckets, definition) is None,
        },
    decreases buckets,
{
    match &buckets {
        Chain::Empty => None,
        Chain::Link(link) => match find_indexed_header(&link.rest, definition) {
            Some(found) => Some(found),
            None => find_header(&link.item.headers, definition),
        },
    }
}

fn place_pair(pairs: &Chain<(DefId, DefId)>, pair: (DefId, DefId)) -> (result: Chain<
    (DefId, DefId),
>)
    ensures
        result == pair_placed(*pairs, pair),
    decreases pairs,
{
    match &pairs {
        Chain::Empty => pairs.clone().with(pair),
        Chain::Link(link) => if link.item.0.0 < pair.0.0 || (link.item.0 == pair.0 && link.item.1.0
            <= pair.1.0) {
            pairs.clone().with(pair)
        } else {
            place_pair(&link.rest, pair).with((link.item.0, link.item.1))
        },
    }
}

fn find_overlaps_with(
    types: &TyInterner,
    earlier: &Chain<ImplHeader>,
    right: &ImplHeader,
    pairs: &Chain<(DefId, DefId)>,
) -> (result: Chain<(DefId, DefId)>)
    requires
        types_wf(types@),
    ensures
        result == overlaps_with(types@, *earlier, *right, *pairs),
    decreases earlier,
{
    match &earlier {
        Chain::Empty => pairs.clone(),
        Chain::Link(link) => {
            let before = find_overlaps_with(types, &link.rest, right, pairs);
            if heads_may_unify(types, link.item.target, right.target) {
                place_pair(&before, (link.item.definition, right.definition))
            } else {
                before
            }
        },
    }
}

fn find_bucket_overlaps(
    types: &TyInterner,
    headers: &Chain<ImplHeader>,
    pairs: &Chain<(DefId, DefId)>,
) -> (result: Chain<(DefId, DefId)>)
    requires
        types_wf(types@),
    ensures
        result == bucket_overlaps(types@, *headers, *pairs),
    decreases headers,
{
    match &headers {
        Chain::Empty => pairs.clone(),
        Chain::Link(link) => find_overlaps_with(
            types,
            &link.rest,
            &link.item,
            &find_bucket_overlaps(types, &link.rest, pairs),
        ),
    }
}

fn find_index_overlaps(types: &TyInterner, buckets: &Chain<Bucket>) -> (result: Chain<
    (DefId, DefId),
>)
    requires
        types_wf(types@),
    ensures
        result == index_overlaps(types@, *buckets),
    decreases buckets,
{
    match &buckets {
        Chain::Empty => Chain::new(),
        Chain::Link(link) => find_bucket_overlaps(
            types,
            &link.item.headers,
            &find_index_overlaps(types, &link.rest),
        ),
    }
}

/// Where the evidence for a goal comes from.
#[derive(Clone, Copy, Debug, PartialEq, Eq, Structural)]
pub enum WitnessSource {
    Implementation(DefId),
    ParamBound(usize),
}

/// The evidence for a goal.
pub struct WitnessSelection {
    pub source: WitnessSource,
    pub substitution: Substitution,
    pub associated_types: Chain<AssociatedTypeBinding>,
    pub prerequisites: Prerequisites,
}

/// The evidence for the conditions of an implementation, in their order.
pub enum Prerequisites {
    Empty,
    Link(Rc<Prerequisites>, Rc<WitnessSelection>),
}

impl Prerequisites {
    /// The list with `witness` behind its last element.
    pub open spec fn pushed(self, witness: WitnessSelection) -> Prerequisites {
        Prerequisites::Link(Rc::new(self), Rc::new(witness))
    }

    /// The list with `witness` behind its last element.
    pub fn with(self, witness: WitnessSelection) -> (longer: Self)
        ensures
            longer == self.pushed(witness),
    {
        Prerequisites::Link(Rc::new(self), Rc::new(witness))
    }

    pub fn is_empty(&self) -> (empty: bool)
        ensures
            empty == (self is Empty),
    {
        match self {
            Prerequisites::Empty => true,
            Prerequisites::Link(_, _) => false,
        }
    }
}

impl Clone for Prerequisites {
    fn clone(&self) -> (copy: Self)
        ensures
            copy == *self,
    {
        match self {
            Prerequisites::Empty => Prerequisites::Empty,
            Prerequisites::Link(rest, item) => Prerequisites::Link(rest.clone(), item.clone()),
        }
    }
}

impl Clone for WitnessSelection {
    fn clone(&self) -> (copy: Self)
        ensures
            copy == *self,
    {
        WitnessSelection {
            source: self.source,
            substitution: self.substitution.clone(),
            associated_types: self.associated_types.clone(),
            prerequisites: self.prerequisites.clone(),
        }
    }
}

impl Duplicate for WitnessSelection {
    fn duplicate(&self) -> (copy: Self) {
        self.clone()
    }
}

/// Why there is no evidence for a goal.
pub enum SolveFailure {
    Missing,
    Ambiguous(Chain<DefId>),
    Cycle(Chain<Goal>),
    AssociatedTypeMismatch { associated_type: DefId, expected: TyId, actual: TyId },
}

/// What matching a pattern against a type binds, and whether it matches. A
/// parameter stands for the first type it meets. Lists of arguments are
/// matched from the front and no further than the first that does not match.
pub open spec fn matched(
    types: Seq<TyData>,
    pattern: TyId,
    actual: TyId,
    substitution: Substitution,
) -> (Substitution, bool)
    decreases pattern.0, 1nat, 0nat,
    when types_wf(types)
{
    match (ty_data(types, pattern), ty_data(types, actual)) {
        (TyData::Param(parameter), _) => bound_once(substitution, parameter, actual),
        (
            TyData::Nominal { definition: left, arguments: left_arguments },
            TyData::Nominal { definition: right, arguments: right_arguments },
        ) => if left == right && left_arguments.spec_len() == right_arguments.spec_len() {
            matched_list(types, left_arguments, right_arguments, substitution, pattern.0)
        } else {
            (substitution, false)
        },
        (TyData::Option(left), TyData::Option(right)) => matched(types, left, right, substitution),
        (TyData::TextMap(left), TyData::TextMap(right)) => matched(
            types,
            left,
            right,
            substitution,
        ),
        (
            TyData::Result { ok: left_ok, error: left_error },
            TyData::Result { ok: right_ok, error: right_error },
        ) => {
            let (between, ok) = matched(types, left_ok, right_ok, substitution);
            if ok {
                matched(types, left_error, right_error, between)
            } else {
                (between, false)
            }
        },
        (left, right) => (substitution, left == right),
    }
}

/// The substitution with `parameter` standing for `ty`, unless it stands for a
/// type already; and whether it now stands for `ty`.
pub open spec fn bound_once(
    substitution: Substitution,
    parameter: GenericParamId,
    ty: TyId,
) -> (Substitution, bool) {
    match substitution.lookup(parameter) {
        Some(previous) => (substitution, previous == ty),
        None => (substitution.inserted(parameter, ty), true),
    }
}

/// `matched` on two lists of one length, front to back.
pub open spec fn matched_list(
    types: Seq<TyData>,
    left: Chain<TyId>,
    right: Chain<TyId>,
    substitution: Substitution,
    limit: u32,
) -> (Substitution, bool)
    decreases limit, 0nat, left.spec_len(),
    when types_wf(types) && all_below(left, limit as int)
{
    match (left, right) {
        (Chain::Link(a), Chain::Link(b)) => {
            let (between, ok) = matched_list(types, a.rest, b.rest, substitution, limit);
            if ok {
                matched(types, a.item, b.item, between)
            } else {
                (between, false)
            }
        },
        _ => (substitution, true),
    }
}

fn bind_once(substitution: &mut Substitution, parameter: GenericParamId, ty: TyId) -> (ok: bool)
    ensures
        (*final(substitution), ok) == bound_once(*old(substitution), parameter, ty),
{
    match substitution.get(parameter) {
        Some(previous) => previous == ty,
        None => {
            substitution.insert(parameter, ty);
            true
        },
    }
}

/// Matches the target of an implementation against a type.
pub fn match_target(
    types: &TyInterner,
    pattern: TyId,
    actual: TyId,
    substitution: &mut Substitution,
) -> (ok: bool)
    requires
        types_wf(types@),
    ensures
        (*final(substitution), ok) == matched(types@, pattern, actual, *old(substitution)),
    decreases pattern.0, 1nat, 0nat,
{
    match (types.data(pattern), types.data(actual)) {
        (TyData::Param(parameter), _) => bind_once(substitution, *parameter, actual),
        (
            TyData::Nominal { definition: left, arguments: left_arguments },
            TyData::Nominal { definition: right, arguments: right_arguments },
        ) => {
            *left == *right && same_length(left_arguments, right_arguments) && match_list(
                types,
                left_arguments,
                right_arguments,
                substitution,
                pattern.0,
            )
        },
        (TyData::Option(left), TyData::Option(right)) => match_target(
            types,
            *left,
            *right,
            substitution,
        ),
        (TyData::TextMap(left), TyData::TextMap(right)) => match_target(
            types,
            *left,
            *right,
            substitution,
        ),
        (
            TyData::Result { ok: left_ok, error: left_error },
            TyData::Result { ok: right_ok, error: right_error },
        ) => {
            match_target(types, *left_ok, *right_ok, substitution) && match_target(
                types,
                *left_error,
                *right_error,
                substitution,
            )
        },
        (left, right) => left.same(right),
    }
}

fn match_list(
    types: &TyInterner,
    left: &Chain<TyId>,
    right: &Chain<TyId>,
    substitution: &mut Substitution,
    limit: u32,
) -> (ok: bool)
    requires
        types_wf(types@),
        all_below(*left, limit as int),
    ensures
        (*final(substitution), ok) == matched_list(
            types@,
            *left,
            *right,
            *old(substitution),
            limit,
        ),
    decreases limit, 0nat, left.spec_len(),
{
    match (&left, &right) {
        (Chain::Link(a), Chain::Link(b)) => {
            match_list(types, &a.rest, &b.rest, substitution, limit) && match_target(
                types,
                a.item,
                b.item,
                substitution,
            )
        },
        _ => true,
    }
}

/// What two targets bind on the left and on the right, and whether they agree
/// where every parameter stands for the first type that it meets. Associated
/// types may turn out to be anything.
pub open spec fn unified_heads(
    types: Seq<TyData>,
    left: TyId,
    right: TyId,
    left_bindings: Substitution,
    right_bindings: Substitution,
) -> (Substitution, Substitution, bool)
    decreases left.0, 1nat, 0nat,
    when types_wf(types)
{
    match (ty_data(types, left), ty_data(types, right)) {
        (TyData::Param(parameter), _) => {
            let (after, ok) = bound_once(left_bindings, parameter, right);
            (after, right_bindings, ok)
        },
        (_, TyData::Param(parameter)) => {
            let (after, ok) = bound_once(right_bindings, parameter, left);
            (left_bindings, after, ok)
        },
        (
            TyData::Nominal { definition: left_definition, arguments: left_arguments },
            TyData::Nominal { definition: right_definition, arguments: right_arguments },
        ) => if left_definition == right_definition && left_arguments.spec_len()
            == right_arguments.spec_len() {
            unified_lists(
                types,
                left_arguments,
                right_arguments,
                left_bindings,
                right_bindings,
                left.0,
            )
        } else {
            (left_bindings, right_bindings, false)
        },
        (TyData::Option(left), TyData::Option(right)) => unified_heads(
            types,
            left,
            right,
            left_bindings,
            right_bindings,
        ),
        (TyData::TextMap(left), TyData::TextMap(right)) => unified_heads(
            types,
            left,
            right,
            left_bindings,
            right_bindings,
        ),
        (
            TyData::Result { ok: left_ok, error: left_error },
            TyData::Result { ok: right_ok, error: right_error },
        ) => {
            let (left_between, right_between, ok) = unified_heads(
                types,
                left_ok,
                right_ok,
                left_bindings,
                right_bindings,
            );
            if ok {
                unified_heads(types, left_error, right_error, left_between, right_between)
            } else {
                (left_between, right_between, false)
            }
        },
        (TyData::Projection { self_ty: _, concept: _, associated_type: _ }, _) => (
            left_bindings,
            right_bindings,
            true,
        ),
        (_, TyData::Projection { self_ty: _, concept: _, associated_type: _ }) => (
            left_bindings,
            right_bindings,
            true,
        ),
        (left, right) => (left_bindings, right_bindings, left == right),
    }
}

/// `unified_heads` on two lists of one length, front to back.
pub open spec fn unified_lists(
    types: Seq<TyData>,
    left: Chain<TyId>,
    right: Chain<TyId>,
    left_bindings: Substitution,
    right_bindings: Substitution,
    limit: u32,
) -> (Substitution, Substitution, bool)
    decreases limit, 0nat, left.spec_len(),
    when types_wf(types) && all_below(left, limit as int)
{
    match (left, right) {
        (Chain::Link(a), Chain::Link(b)) => {
            let (left_between, right_between, ok) = unified_lists(
                types,
                a.rest,
                b.rest,
                left_bindings,
                right_bindings,
                limit,
            );
            if ok {
                unified_heads(types, a.item, b.item, left_between, right_between)
            } else {
                (left_between, right_between, false)
            }
        },
        _ => (left_bindings, right_bindings, true),
    }
}

/// Whether two targets might overlap: they agree with the first types that
/// their parameters meet, or their parameters can be chosen so that they are
/// one type.
pub open spec fn may_unify(types: Seq<TyData>, left: TyId, right: TyId) -> bool {
    unified_heads(types, left, right, Substitution::empty(), Substitution::empty()).2 || can_meet(
        types,
        left,
        right,
    )
}

/// Whether the targets of two implementations might overlap: true wherever one
/// type matches both.
pub fn heads_may_unify(types: &TyInterner, left: TyId, right: TyId) -> (may: bool)
    requires
        types_wf(types@),
    ensures
        may == may_unify(types@, left, right),
{
    let mut left_bindings = Substitution::default();
    let mut right_bindings = Substitution::default();
    heads_may_unify_inner(types, left, right, &mut left_bindings, &mut right_bindings)
        || heads_can_meet(types, left, right)
}

fn heads_may_unify_inner(
    types: &TyInterner,
    left: TyId,
    right: TyId,
    left_bindings: &mut Substitution,
    right_bindings: &mut Substitution,
) -> (may: bool)
    requires
        types_wf(types@),
    ensures
        (*final(left_bindings), *final(right_bindings), may) == unified_heads(
            types@,
            left,
            right,
            *old(left_bindings),
            *old(right_bindings),
        ),
    decreases left.0, 1nat, 0nat,
{
    match (types.data(left), types.data(right)) {
        (TyData::Param(parameter), _) => bind_once(left_bindings, *parameter, right),
        (_, TyData::Param(parameter)) => bind_once(right_bindings, *parameter, left),
        (
            TyData::Nominal { definition: left_definition, arguments: left_arguments },
            TyData::Nominal { definition: right_definition, arguments: right_arguments },
        ) => {
            *left_definition == *right_definition && same_length(left_arguments, right_arguments)
                && unify_lists(
                types,
                left_arguments,
                right_arguments,
                left_bindings,
                right_bindings,
                left.0,
            )
        },
        (TyData::Option(left), TyData::Option(right)) => heads_may_unify_inner(
            types,
            *left,
            *right,
            left_bindings,
            right_bindings,
        ),
        (TyData::TextMap(left), TyData::TextMap(right)) => heads_may_unify_inner(
            types,
            *left,
            *right,
            left_bindings,
            right_bindings,
        ),
        (
            TyData::Result { ok: left_ok, error: left_error },
            TyData::Result { ok: right_ok, error: right_error },
        ) => {
            heads_may_unify_inner(types, *left_ok, *right_ok, left_bindings, right_bindings)
                && heads_may_unify_inner(
                types,
                *left_error,
                *right_error,
                left_bindings,
                right_bindings,
            )
        },
        // An associated type can turn out to be anything.
        (TyData::Projection { self_ty: _, concept: _, associated_type: _ }, _) => true,
        (_, TyData::Projection { self_ty: _, concept: _, associated_type: _ }) => true,
        (left, right) => left.same(right),
    }
}

fn unify_lists(
    types: &TyInterner,
    left: &Chain<TyId>,
    right: &Chain<TyId>,
    left_bindings: &mut Substitution,
    right_bindings: &mut Substitution,
    limit: u32,
) -> (may: bool)
    requires
        types_wf(types@),
        all_below(*left, limit as int),
    ensures
        (*final(left_bindings), *final(right_bindings), may) == unified_lists(
            types@,
            *left,
            *right,
            *old(left_bindings),
            *old(right_bindings),
            limit,
        ),
    decreases limit, 0nat, left.spec_len(),
{
    match (&left, &right) {
        (Chain::Link(a), Chain::Link(b)) => {
            unify_lists(types, &a.rest, &b.rest, left_bindings, right_bindings, limit)
                && heads_may_unify_inner(types, a.item, b.item, left_bindings, right_bindings)
        },
        _ => true,
    }
}

} // verus!
