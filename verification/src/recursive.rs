//! Types that would contain themselves by value.

use vstd::prelude::*;

use crate::chain::Chain;
#[allow(unused_imports)]
use crate::diagnostics::{adds_to, lemma_adds_nothing, lemma_adds_one, lemma_adds_through};
use crate::diagnostics::{Diagnostic, Message};
#[allow(unused_imports)]
use crate::diagnostics::Label;
#[allow(unused_imports)]
use crate::graph::{connected, edge, graph_wf, law_mutual_is_equivalence, law_turned, mutual};
use crate::graph::{reach, turn};
use crate::hir::{DefinitionKind, Program};
use crate::ids::{DefId, TyId};
use crate::resolve::Sources;
use crate::semantics::Signature;
use crate::survey::Analyzer;
#[allow(unused_imports)]
use crate::survey::Survey;
use crate::table::{contains_id, insert_id};
#[allow(unused_imports)]
use crate::table::{has_id, id_inserted, law_insert_id};
use crate::ty::{TyData, TyInterner};
#[allow(unused_imports)]
use crate::ty::{all_below, ty_data, types_wf};

verus! {

broadcast use {lemma_adds_nothing, lemma_adds_one, lemma_adds_through};

impl Program {
    /// The definition declares a type.
    pub open spec fn declares_type(self, definition: u32) -> bool {
        match self.kind_of(DefId(definition)) {
            Some(DefinitionKind::RefinedType { base: _, predicate: _ }) => true,
            Some(DefinitionKind::Record { generic_params: _, fields: _, invariant_body: _ }) =>
                true,
            Some(DefinitionKind::Enum { generic_params: _, variants: _ }) => true,
            _ => false,
        }
    }

    fn is_type(&self, definition: u32) -> (result: bool)
        ensures
            result == self.declares_type(definition),
    {
        match self.kind(DefId(definition)) {
            Some(DefinitionKind::RefinedType { base: _, predicate: _ }) => true,
            Some(DefinitionKind::Record { generic_params: _, fields: _, invariant_body: _ }) =>
                true,
            Some(DefinitionKind::Enum { generic_params: _, variants: _ }) => true,
            _ => false,
        }
    }
}

/// The declared types that a type holds by value, with those that are known.
/// What stands behind a list, a text map, a task or a view is held indirectly.
pub open spec fn dependencies(
    program: &Program,
    types: Seq<TyData>,
    ty: TyId,
    known: Chain<u32>,
) -> Chain<u32>
    decreases ty.0, 1nat, 0nat,
    when types_wf(types)
{
    match ty_data(types, ty) {
        TyData::Tuple(elements) => list_dependencies(program, types, elements, known, ty.0),
        TyData::Option(element) => dependencies(program, types, element, known),
        TyData::TaskOutcome(element) => dependencies(program, types, element, known),
        TyData::Result { ok, error } => dependencies(
            program,
            types,
            error,
            dependencies(program, types, ok, known),
        ),
        TyData::Nominal { definition, arguments } => list_dependencies(
            program,
            types,
            arguments,
            if program.declares_type(definition.0) {
                id_inserted(known, definition.0)
            } else {
                known
            },
            ty.0,
        ),
        _ => known,
    }
}

pub open spec fn list_dependencies(
    program: &Program,
    types: Seq<TyData>,
    list: Chain<TyId>,
    known: Chain<u32>,
    limit: u32,
) -> Chain<u32>
    decreases limit, 0nat, list.spec_len(),
    when types_wf(types) && all_below(list, limit as int)
{
    match list {
        Chain::Empty => known,
        Chain::Link(link) => dependencies(
            program,
            types,
            link.item,
            list_dependencies(program, types, link.rest, known, limit),
        ),
    }
}

/// A type holds the declared type `definition` by value.
pub open spec fn holds(
    program: &Program,
    types: Seq<TyData>,
    ty: TyId,
    definition: u32,
) -> bool
    decreases ty.0, 1nat, 0nat,
    when types_wf(types)
{
    match ty_data(types, ty) {
        TyData::Tuple(elements) => list_holds(program, types, elements, definition, ty.0),
        TyData::Option(element) => holds(program, types, element, definition),
        TyData::TaskOutcome(element) => holds(program, types, element, definition),
        TyData::Result { ok, error } => holds(program, types, ok, definition) || holds(
            program,
            types,
            error,
            definition,
        ),
        TyData::Nominal { definition: named, arguments } => (named.0 == definition
            && program.declares_type(definition)) || list_holds(
            program,
            types,
            arguments,
            definition,
            ty.0,
        ),
        _ => false,
    }
}

pub open spec fn list_holds(
    program: &Program,
    types: Seq<TyData>,
    list: Chain<TyId>,
    definition: u32,
    limit: u32,
) -> bool
    decreases limit, 0nat, list.spec_len(),
    when types_wf(types) && all_below(list, limit as int)
{
    match list {
        Chain::Empty => false,
        Chain::Link(link) => list_holds(program, types, link.rest, definition, limit) || holds(
            program,
            types,
            link.item,
            definition,
        ),
    }
}

/// The dependencies of a type are what it holds by value, beside those that
/// were known.
pub proof fn law_dependencies(
    program: &Program,
    types: Seq<TyData>,
    ty: TyId,
    known: Chain<u32>,
    definition: u32,
)
    requires
        types_wf(types),
    ensures
        has_id(dependencies(program, types, ty, known), definition) == (has_id(known, definition)
            || holds(program, types, ty, definition)),
    decreases ty.0, 1nat, 0nat,
{
    match ty_data(types, ty) {
        TyData::Tuple(elements) => {
            lemma_list_dependencies(program, types, elements, known, definition, ty.0);
        },
        TyData::Option(element) => {
            law_dependencies(program, types, element, known, definition);
        },
        TyData::TaskOutcome(element) => {
            law_dependencies(program, types, element, known, definition);
        },
        TyData::Result { ok, error } => {
            law_dependencies(program, types, ok, known, definition);
            law_dependencies(
                program,
                types,
                error,
                dependencies(program, types, ok, known),
                definition,
            );
        },
        TyData::Nominal { definition: named, arguments } => {
            law_insert_id(known, named.0, definition);
            lemma_list_dependencies(
                program,
                types,
                arguments,
                if program.declares_type(named.0) {
                    id_inserted(known, named.0)
                } else {
                    known
                },
                definition,
                ty.0,
            );
        },
        _ => {},
    }
}

proof fn lemma_list_dependencies(
    program: &Program,
    types: Seq<TyData>,
    list: Chain<TyId>,
    known: Chain<u32>,
    definition: u32,
    limit: u32,
)
    requires
        types_wf(types),
        all_below(list, limit as int),
    ensures
        has_id(list_dependencies(program, types, list, known, limit), definition) == (has_id(
            known,
            definition,
        ) || list_holds(program, types, list, definition, limit)),
    decreases limit, 0nat, list.spec_len(),
{
    if list is Link {
        let rest = list.without_last();
        lemma_list_dependencies(program, types, rest, known, definition, limit);
        law_dependencies(
            program,
            types,
            list->0.item,
            list_dependencies(program, types, rest, known, limit),
            definition,
        );
    }
}

/// What a type holds by value is declared.
proof fn lemma_holds_declared(program: &Program, types: Seq<TyData>, ty: TyId, definition: u32)
    requires
        types_wf(types),
        holds(program, types, ty, definition),
    ensures
        program.declares_type(definition),
    decreases ty.0, 1nat, 0nat,
{
    match ty_data(types, ty) {
        TyData::Tuple(elements) => {
            lemma_list_holds_declared(program, types, elements, definition, ty.0);
        },
        TyData::Option(element) => {
            lemma_holds_declared(program, types, element, definition);
        },
        TyData::TaskOutcome(element) => {
            lemma_holds_declared(program, types, element, definition);
        },
        TyData::Result { ok, error } => {
            if holds(program, types, ok, definition) {
                lemma_holds_declared(program, types, ok, definition);
            } else {
                lemma_holds_declared(program, types, error, definition);
            }
        },
        TyData::Nominal { definition: named, arguments } => {
            if !(named.0 == definition && program.declares_type(definition)) {
                lemma_list_holds_declared(program, types, arguments, definition, ty.0);
            }
        },
        _ => {},
    }
}

proof fn lemma_list_holds_declared(
    program: &Program,
    types: Seq<TyData>,
    list: Chain<TyId>,
    definition: u32,
    limit: u32,
)
    requires
        types_wf(types),
        all_below(list, limit as int),
        list_holds(program, types, list, definition, limit),
    ensures
        program.declares_type(definition),
    decreases limit, 0nat, list.spec_len(),
{
    if list is Link {
        let rest = list.without_last();
        if list_holds(program, types, rest, definition, limit) {
            lemma_list_holds_declared(program, types, rest, definition, limit);
        } else {
            lemma_holds_declared(program, types, list->0.item, definition);
        }
    }
}

/// The known ids are declared types.
pub open spec fn all_declared(program: &Program, ids: Chain<u32>) -> bool {
    forall|id: u32| #[trigger] has_id(ids, id) ==> program.declares_type(id)
}

fn collect_by_value_nominal_dependencies(
    program: &Program,
    types: &TyInterner,
    ty: TyId,
    known: &Chain<u32>,
) -> (found: Chain<u32>)
    requires
        types_wf(types@),
    ensures
        found == dependencies(program, types@, ty, *known),
        all_declared(program, *known) ==> all_declared(program, found),
    decreases ty.0, 1nat, 0nat,
{
    proof {
        assert forall|id: u32|
            all_declared(program, *known) && #[trigger] has_id(
                dependencies(program, types@, ty, *known),
                id,
            ) implies program.declares_type(id) by {
            law_dependencies(program, types@, ty, *known, id);
            if !has_id(*known, id) {
                lemma_holds_declared(program, types@, ty, id);
            }
        }
    }
    match types.data(ty) {
        TyData::Tuple(elements) => collect_in_list(program, types, elements, known, ty.0),
        TyData::Option(element) => collect_by_value_nominal_dependencies(
            program,
            types,
            *element,
            known,
        ),
        TyData::TaskOutcome(element) => collect_by_value_nominal_dependencies(
            program,
            types,
            *element,
            known,
        ),
        TyData::Result { ok, error } => {
            let found = collect_by_value_nominal_dependencies(program, types, *ok, known);
            collect_by_value_nominal_dependencies(program, types, *error, &found)
        },
        TyData::Nominal { definition, arguments } => {
            let found = if program.is_type(definition.0) {
                insert_id(known, definition.0)
            } else {
                known.clone()
            };
            collect_in_list(program, types, arguments, &found, ty.0)
        },
        _ => known.clone(),
    }
}

fn collect_in_list(
    program: &Program,
    types: &TyInterner,
    list: &Chain<TyId>,
    known: &Chain<u32>,
    limit: u32,
) -> (found: Chain<u32>)
    requires
        types_wf(types@),
        all_below(*list, limit as int),
    ensures
        found == list_dependencies(program, types@, *list, *known, limit),
    decreases limit, 0nat, list.spec_len(),
{
    match list {
        Chain::Empty => known.clone(),
        Chain::Link(link) => {
            let found = collect_in_list(program, types, &link.rest, known, limit);
            collect_by_value_nominal_dependencies(program, types, link.item, &found)
        },
    }
}

impl Survey {
    /// What the types of a payload hold by value.
    pub open spec fn payload_dependencies(
        self,
        program: &Program,
        list: Chain<TyId>,
        known: Chain<u32>,
    ) -> Chain<u32>
        decreases list,
    {
        match list {
            Chain::Empty => known,
            Chain::Link(link) => dependencies(
                program,
                self.names.types,
                link.item,
                self.payload_dependencies(program, link.rest, known),
            ),
        }
    }

    /// What fields hold by value.
    pub open spec fn field_dependencies(
        self,
        program: &Program,
        fields: Chain<DefId>,
    ) -> Chain<u32>
        decreases fields,
    {
        match fields {
            Chain::Empty => Chain::Empty,
            Chain::Link(link) => {
                let known = self.field_dependencies(program, link.rest);
                match self.signature_of(link.item) {
                    Some(Signature::Field { owner: _, ty }) => dependencies(
                        program,
                        self.names.types,
                        ty,
                        known,
                    ),
                    _ => known,
                }
            },
        }
    }

    /// What variants hold by value.
    pub open spec fn variant_dependencies(
        self,
        program: &Program,
        variants: Chain<DefId>,
    ) -> Chain<u32>
        decreases variants,
    {
        match variants {
            Chain::Empty => Chain::Empty,
            Chain::Link(link) => {
                let known = self.variant_dependencies(program, link.rest);
                match self.signature_of(link.item) {
                    Some(Signature::Variant { owner: _, payload }) => self.payload_dependencies(
                        program,
                        payload,
                        known,
                    ),
                    _ => known,
                }
            },
        }
    }

    /// The declared types that a declared type holds by value.
    pub open spec fn direct_dependencies(self, program: &Program, definition: u32) -> Chain<u32> {
        match program.kind_of(DefId(definition)) {
            Some(DefinitionKind::RefinedType { base, predicate: _ }) =>
                match self.names.type_refs.lookup(base.0) {
                    Some(ty) => dependencies(program, self.names.types, ty, Chain::Empty),
                    None => Chain::Empty,
                },
            Some(DefinitionKind::Record { generic_params: _, fields, invariant_body: _ }) =>
                self.field_dependencies(program, fields),
            Some(DefinitionKind::Enum { generic_params: _, variants }) =>
                self.variant_dependencies(program, variants),
            _ => Chain::Empty,
        }
    }

    /// Which declared type holds which by value.
    pub open spec fn value_graph(self, program: &Program) -> Seq<Chain<u32>> {
        Seq::new(
            program.definitions@.len(),
            |definition: int| self.direct_dependencies(program, definition as u32),
        )
    }
}

/// The definitions below `count` that hold each other with `definition`, in
/// order.
pub open spec fn component(graph: Seq<Chain<u32>>, definition: u32, count: nat) -> Chain<u32>
    decreases count,
{
    if count == 0 {
        Chain::Empty
    } else {
        let before = component(graph, definition, (count - 1) as nat);
        let last = (count - 1) as u32;
        if mutual(graph, definition, last) {
            before.pushed(last)
        } else {
            before
        }
    }
}

/// The definition is the first of its component.
pub open spec fn leads(graph: Seq<Chain<u32>>, definition: u32) -> bool {
    component(graph, definition, definition as nat) is Empty
}

/// The definitions of a component hold themselves by value.
pub open spec fn is_cycle(graph: Seq<Chain<u32>>, definition: u32) -> bool {
    component(graph, definition, graph.len()).spec_len() > 1 || edge(graph, definition, definition)
}

/// The ids as definitions.
pub open spec fn as_definitions(ids: Chain<u32>) -> Chain<DefId>
    decreases ids,
{
    match ids {
        Chain::Empty => Chain::Empty,
        Chain::Link(link) => as_definitions(link.rest).pushed(DefId(link.item)),
    }
}

fn to_definitions(ids: &Chain<u32>) -> (definitions: Chain<DefId>)
    ensures
        definitions == as_definitions(*ids),
    decreases ids,
{
    match ids {
        Chain::Empty => Chain::new(),
        Chain::Link(link) => to_definitions(&link.rest).with(DefId(link.item)),
    }
}

/// A label on each member of a component but its first.
pub open spec fn cycle_labels(program: &Program, members: Chain<u32>, first: u32) -> Chain<Label>
    decreases members,
{
    match members {
        Chain::Empty => Chain::Empty,
        Chain::Link(link) => {
            let before = cycle_labels(program, link.rest, first);
            if link.item == first {
                before
            } else {
                before.pushed(
                    Label {
                        span: program.span_of(DefId(link.item)),
                        text: "this declaration participates in the by-value cycle",
                    },
                )
            }
        },
    }
}

fn make_cycle_labels(program: &Program, members: &Chain<u32>, first: u32) -> (labels: Chain<Label>)
    ensures
        labels == cycle_labels(program, *members, first),
    decreases members,
{
    match members {
        Chain::Empty => Chain::new(),
        Chain::Link(link) => {
            let before = make_cycle_labels(program, &link.rest, first);
            if link.item == first {
                before
            } else {
                before.with(
                    Label {
                        span: program.definition_span(DefId(link.item)),
                        text: "this declaration participates in the by-value cycle",
                    },
                )
            }
        },
    }
}

/// What is said of a component whose first member is `first`.
pub open spec fn cycle_diagnostic(
    program: &Program,
    members: Chain<u32>,
    first: u32,
) -> Diagnostic {
    Diagnostic {
        code: "RecursiveValueType",
        message: if members.spec_len() > 1 {
            Message::DefinitionList(
                "by-value nominal types ",
                as_definitions(members),
                " form an infinite-size cycle",
                "<anonymous>",
            )
        } else {
            Message::Definition(
                "by-value nominal type `",
                DefId(first),
                "` has infinite size because it contains itself",
                "<anonymous>",
            )
        },
        primary: program.span_of(DefId(first)),
        labels: cycle_labels(program, members, first),
        note: Some(
            "break the cycle with an indirect List, TextMap, Task, or dynamic concept view",
        ),
    }
}

impl Survey {
    /// The cycles whose first member is below `count` are reported.
    pub open spec fn value_cycles_reported(
        self,
        program: &Program,
        graph: Seq<Chain<u32>>,
        count: nat,
    ) -> Survey
        decreases count,
    {
        if count == 0 {
            self
        } else {
            let before = self.value_cycles_reported(program, graph, (count - 1) as nat);
            let first = (count - 1) as u32;
            if program.declares_type(first) && leads(graph, first) && is_cycle(graph, first) {
                before.report(
                    cycle_diagnostic(program, component(graph, first, graph.len()), first),
                )
            } else {
                before
            }
        }
    }

    /// Every group of types that would contain themselves by value is
    /// reported once.
    pub open spec fn validate_recursive_value_types(self, cx: &Sources) -> Survey {
        self.value_cycles_reported(
            cx.program,
            self.value_graph(cx.program),
            cx.program.definitions@.len(),
        )
    }
}

/// The members of a component that lie below `count` are mutually connected
/// with the definition.
pub proof fn law_component(graph: Seq<Chain<u32>>, definition: u32, count: nat, id: u32)
    requires
        count <= graph.len() <= u32::MAX,
    ensures
        has_id(component(graph, definition, count), id) == (id < count && mutual(
            graph,
            definition,
            id,
        )),
    decreases count,
{
    if count > 0 {
        law_component(graph, definition, (count - 1) as nat, id);
    }
}

proof fn lemma_component_equal(graph: Seq<Chain<u32>>, a: u32, b: u32, count: nat)
    requires
        mutual(graph, a, b),
    ensures
        component(graph, a, count) == component(graph, b, count),
    decreases count,
{
    if count > 0 {
        lemma_component_equal(graph, a, b, (count - 1) as nat);
        let last = (count - 1) as u32;
        law_mutual_is_equivalence(graph, a, b, last);
        law_mutual_is_equivalence(graph, b, a, last);
    }
}

/// Two definitions that hold each other have the same component, and only one
/// of them leads it.
pub proof fn law_one_leader(graph: Seq<Chain<u32>>, a: u32, b: u32)
    requires
        graph.len() <= u32::MAX,
        a < graph.len(),
        b < graph.len(),
        mutual(graph, a, b),
    ensures
        component(graph, a, graph.len()) == component(graph, b, graph.len()),
        leads(graph, a) && leads(graph, b) ==> a == b,
{
    lemma_component_equal(graph, a, b, graph.len());
    law_mutual_is_equivalence(graph, a, b, a);
    if a < b {
        law_component(graph, b, b as nat, a);
    } else if b < a {
        law_component(graph, a, a as nat, b);
    }
}

/// The component of a definition, from the definitions that it reaches and
/// those that reach it.
fn strongly_connected_component(
    graph: &Vec<Chain<u32>>,
    definition: u32,
    forward: &Vec<bool>,
    backward: &Vec<bool>,
    count: u32,
) -> (members: Chain<u32>)
    requires
        count <= graph@.len() <= u32::MAX,
        forward@.len() == graph@.len(),
        backward@.len() == graph@.len(),
        forall|x: u32|
            x < graph@.len() ==> (#[trigger] forward@[x as int] <==> connected(
                graph@,
                definition,
                x,
            )),
        forall|x: u32|
            x < graph@.len() ==> (#[trigger] backward@[x as int] <==> connected(
                graph@,
                x,
                definition,
            )),
    ensures
        members == component(graph@, definition, count as nat),
{
    let mut members: Chain<u32> = Chain::new();
    let mut i: u32 = 0;
    while i < count
        invariant
            i <= count,
            count <= graph@.len() <= u32::MAX,
            forward@.len() == graph@.len(),
            backward@.len() == graph@.len(),
            forall|x: u32|
                x < graph@.len() ==> (#[trigger] forward@[x as int] <==> connected(
                    graph@,
                    definition,
                    x,
                )),
            forall|x: u32|
                x < graph@.len() ==> (#[trigger] backward@[x as int] <==> connected(
                    graph@,
                    x,
                    definition,
                )),
            members == component(graph@, definition, i as nat),
        decreases count - i,
    {
        if forward[i as usize] && backward[i as usize] {
            members = members.with(i);
        }
        i = i + 1;
    }
    members
}

impl Analyzer {
    fn payload_dependencies(
        &self,
        program: &Program,
        list: &Chain<TyId>,
        known: &Chain<u32>,
    ) -> (found: Chain<u32>)
        requires
            self.wf(),
        ensures
            found == self@.payload_dependencies(program, *list, *known),
            all_declared(program, *known) ==> all_declared(program, found),
        decreases list,
    {
        match list {
            Chain::Empty => known.clone(),
            Chain::Link(link) => {
                let found = self.payload_dependencies(program, &link.rest, known);
                collect_by_value_nominal_dependencies(
                    program,
                    &self.names.types,
                    link.item,
                    &found,
                )
            },
        }
    }

    fn field_dependencies(&self, program: &Program, fields: &Chain<DefId>) -> (found: Chain<u32>)
        requires
            self.wf(),
        ensures
            found == self@.field_dependencies(program, *fields),
            all_declared(program, found),
        decreases fields,
    {
        match fields {
            Chain::Empty => Chain::new(),
            Chain::Link(link) => {
                let known = self.field_dependencies(program, &link.rest);
                match self.st.signatures.get(link.item.0) {
                    Some(Signature::Field { owner: _, ty }) =>
                        collect_by_value_nominal_dependencies(
                        program,
                        &self.names.types,
                        *ty,
                        &known,
                    ),
                    _ => known,
                }
            },
        }
    }

    fn variant_dependencies(&self, program: &Program, variants: &Chain<DefId>) -> (found: Chain<
        u32,
    >)
        requires
            self.wf(),
        ensures
            found == self@.variant_dependencies(program, *variants),
            all_declared(program, found),
        decreases variants,
    {
        match variants {
            Chain::Empty => Chain::new(),
            Chain::Link(link) => {
                let known = self.variant_dependencies(program, &link.rest);
                match self.st.signatures.get(link.item.0) {
                    Some(Signature::Variant { owner: _, payload }) => self.payload_dependencies(
                        program,
                        payload,
                        &known,
                    ),
                    _ => known,
                }
            },
        }
    }

    fn direct_dependencies(&self, program: &Program, definition: u32) -> (found: Chain<u32>)
        requires
            self.wf(),
        ensures
            found == self@.direct_dependencies(program, definition),
            all_declared(program, found),
    {
        match program.kind(DefId(definition)) {
            Some(DefinitionKind::RefinedType { base, predicate: _ }) =>
                match self.names.type_refs.get(base.0) {
                    Some(ty) => collect_by_value_nominal_dependencies(
                        program,
                        &self.names.types,
                        *ty,
                        &Chain::new(),
                    ),
                    None => Chain::new(),
                },
            Some(DefinitionKind::Record { generic_params: _, fields, invariant_body: _ }) =>
                self.field_dependencies(program, fields),
            Some(DefinitionKind::Enum { generic_params: _, variants }) =>
                self.variant_dependencies(program, variants),
            _ => Chain::new(),
        }
    }

    fn value_graph(&self, program: &Program) -> (graph: Vec<Chain<u32>>)
        requires
            self.wf(),
            program.fits(),
        ensures
            graph@ == self@.value_graph(program),
            graph_wf(graph@),
    {
        let count: u32 = program.definitions.len() as u32;
        let mut graph: Vec<Chain<u32>> = Vec::new();
        let mut i: u32 = 0;
        while i < count
            invariant
                i <= count,
                count == program.definitions@.len(),
                self.wf(),
                graph@.len() == i,
                forall|x: int|
                    0 <= x < i ==> #[trigger] graph@[x] == self@.direct_dependencies(
                        program,
                        x as u32,
                    ) && all_declared(program, graph@[x]),
            decreases count - i,
        {
            let list = self.direct_dependencies(program, i);
            graph.push(list);
            i = i + 1;
        }
        assert(graph@ =~= self@.value_graph(program));
        assert forall|a: u32, b: u32| #[trigger] edge(graph@, a, b) implies b < graph@.len() by {
            assert(all_declared(program, graph@[a as int]));
            assert(program.declares_type(b));
        }
        graph
    }

    /// Reports every group of types that would contain themselves by value.
    pub fn validate_recursive_value_types(&mut self, cx: &Sources)
        requires
            old(self).wf(),
            cx.program.fits(),
        ensures
            adds_to(old(self)@.names.diagnostics, final(self)@.names.diagnostics),
            final(self)@.names.types == old(self)@.names.types,
            final(self)@ == old(self)@.validate_recursive_value_types(cx),
    {
        let graph = self.value_graph(cx.program);
        let turned = turn(&graph);
        let ghost begun = self@;
        let count: u32 = cx.program.definitions.len() as u32;
        let mut i: u32 = 0;
        while i < count
            invariant
                adds_to(old(self)@.names.diagnostics, self@.names.diagnostics),
                i <= count,
                count == graph@.len(),
                count == turned@.len(),
                graph_wf(graph@),
                graph_wf(turned@),
                crate::graph::is_turned(graph@, turned@),
                self@.names.types == begun.names.types,
                self@ == begun.value_cycles_reported(cx.program, graph@, i as nat),
            decreases count - i,
        {
            if cx.program.is_type(i) {
                let forward = reach(&graph, i);
                let backward = reach(&turned, i);
                proof {
                    assert forall|x: u32| x < graph@.len() implies (
                    #[trigger] backward@[x as int] <==> connected(graph@, x, i)) by {
                        law_turned(graph@, turned@, i, x);
                    }
                }
                let below = strongly_connected_component(&graph, i, &forward, &backward, i);
                if below.is_empty() {
                    let members = strongly_connected_component(
                        &graph,
                        i,
                        &forward,
                        &backward,
                        count,
                    );
                    let several = has_several(&members);
                    if several || contains_id(&graph[i as usize], i) {
                        self.report_recursive_value_component(cx.program, &members, i);
                    }
                }
            }
            i = i + 1;
        }
    }

    fn report_recursive_value_component(
        &mut self,
        program: &Program,
        members: &Chain<u32>,
        first: u32,
    )
        ensures
            adds_to(old(self)@.names.diagnostics, final(self)@.names.diagnostics),
            final(self)@.names.types == old(self)@.names.types,
            final(self)@ == old(self)@.report(cycle_diagnostic(program, *members, first)),
    {
        let message = if has_several(members) {
            Message::DefinitionList(
                "by-value nominal types ",
                to_definitions(members),
                " form an infinite-size cycle",
                "<anonymous>",
            )
        } else {
            Message::Definition(
                "by-value nominal type `",
                DefId(first),
                "` has infinite size because it contains itself",
                "<anonymous>",
            )
        };
        self.report(
            Diagnostic {
                code: "RecursiveValueType",
                message,
                primary: program.definition_span(DefId(first)),
                labels: make_cycle_labels(program, members, first),
                note: Some(
                    "break the cycle with an indirect List, TextMap, Task, or dynamic concept view",
                ),
            },
        );
    }
}

fn has_several(ids: &Chain<u32>) -> (several: bool)
    ensures
        several == (ids.spec_len() > 1),
{
    match ids {
        Chain::Empty => false,
        Chain::Link(link) => {
            assert(link.rest.spec_len() > 0 <==> link.rest is Link);
            !link.rest.is_empty()
        },
    }
}

} // verus!
