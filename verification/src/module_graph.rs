//! Which module imports which, and in what order they depend on each other.

use vstd::prelude::*;

use crate::chain::Chain;
use crate::diagnostics::{Diagnostic, Message};
#[allow(unused_imports)]
use crate::diagnostics::plain;
use crate::hir::{get, text_is, Import, ImportTarget, Program, Segment};
#[allow(unused_imports)]
use crate::hir::{at, no_span};
use crate::ids::{ModuleId, Span};
use crate::order::name_less;
#[allow(unused_imports)]
use crate::order::text_less;

verus! {

/// An import of one module into another.
#[derive(Clone, Copy, Debug, PartialEq, Eq, Structural)]
pub struct ImportEdge {
    pub from: ModuleId,
    pub to: ModuleId,
    /// The position of the import in its module.
    pub import_index: usize,
}

/// The imports of every module, ordered by the name of the imported module.
pub struct ModuleGraph {
    pub outgoing: Vec<Chain<ImportEdge>>,
}

/// The graph, and what was reported of the imports.
pub struct ModuleGraphBuild {
    pub graph: ModuleGraph,
    pub diagnostics: Chain<Diagnostic>,
}

impl Program {
    /// The modules can be numbered.
    pub open spec fn modules_fit(self) -> bool {
        self.modules@.len() <= u32::MAX
    }

    /// The name of a module.
    pub open spec fn module_name_of(self, module: ModuleId) -> Seq<char> {
        match at(self.modules@, module.0) {
            Some(found) => found.name@,
            None => Seq::empty(),
        }
    }

    /// The first module has a lesser name than the second.
    pub open spec fn named_before(self, left: ModuleId, right: ModuleId) -> bool {
        text_less(self.module_name_of(left), self.module_name_of(right))
    }

    fn is_named_before(&self, left: ModuleId, right: ModuleId) -> (less: bool)
        ensures
            less == self.named_before(left, right),
    {
        match (get(&self.modules, left.0), get(&self.modules, right.0)) {
            (Some(a), Some(b)) => name_less(&a.name, &b.name),
            (Some(a), None) => {
                let empty = String::new();
                name_less(&a.name, &empty)
            },
            (None, Some(b)) => {
                let empty = String::new();
                name_less(&empty, &b.name)
            },
            (None, None) => {
                let empty = String::new();
                name_less(&empty, &empty)
            },
        }
    }

    /// The list with a module put behind those that it does not come before.
    pub open spec fn module_placed(self, list: Chain<ModuleId>, module: ModuleId) -> Chain<ModuleId>
        decreases list,
    {
        match list {
            Chain::Empty => list.pushed(module),
            Chain::Link(link) => if self.named_before(module, link.item) {
                self.module_placed(link.rest, module).pushed(link.item)
            } else {
                list.pushed(module)
            },
        }
    }

    fn place_module(&self, list: &Chain<ModuleId>, module: ModuleId) -> (placed: Chain<ModuleId>)
        ensures
            placed == self.module_placed(*list, module),
        decreases list,
    {
        match list {
            Chain::Empty => list.clone().with(module),
            Chain::Link(link) => if self.is_named_before(module, link.item) {
                self.place_module(&link.rest, module).with(link.item)
            } else {
                list.clone().with(module)
            },
        }
    }

    /// The modules below `count`, ordered by name.
    pub open spec fn modules_by_name(self, count: nat) -> Chain<ModuleId>
        decreases count,
    {
        if count == 0 {
            Chain::Empty
        } else {
            self.module_placed(
                self.modules_by_name((count - 1) as nat),
                ModuleId((count - 1) as u32),
            )
        }
    }

    /// The modules of the program, ordered by name.
    pub open spec fn ordered_modules(self) -> Chain<ModuleId> {
        self.modules_by_name(self.modules@.len())
    }

    pub(crate) fn order_modules(&self) -> (modules: Chain<ModuleId>)
        requires
            self.modules_fit(),
        ensures
            modules == self.ordered_modules(),
    {
        let count: u32 = self.modules.len() as u32;
        let mut modules: Chain<ModuleId> = Chain::new();
        let mut i: u32 = 0;
        while i < count
            invariant
                i <= count,
                count == self.modules@.len(),
                modules == self.modules_by_name(i as nat),
            decreases count - i,
        {
            modules = self.place_module(&modules, ModuleId(i));
            i = i + 1;
        }
        modules
    }
}

/// The segments are the given names.
pub open spec fn spells(
    path: Chain<Segment>,
    first: Seq<char>,
    second: Seq<char>,
    third: Seq<char>,
) -> bool {
    match path {
        Chain::Link(c) => c.item.name@ == third && match c.rest {
            Chain::Link(b) => b.item.name@ == second && match b.rest {
                Chain::Link(a) => a.item.name@ == first && a.rest is Empty,
                Chain::Empty => false,
            },
            Chain::Empty => false,
        },
        Chain::Empty => false,
    }
}

fn check_spells(path: &Chain<Segment>, first: &str, second: &str, third: &str) -> (result: bool)
    ensures
        result == spells(*path, first@, second@, third@),
{
    match path {
        Chain::Link(c) => text_is(&c.item.name, third) && match &c.rest {
            Chain::Link(b) => text_is(&b.item.name, second) && match &b.rest {
                Chain::Link(a) => text_is(&a.item.name, first) && a.rest.is_empty(),
                Chain::Empty => false,
            },
            Chain::Empty => false,
        },
        Chain::Empty => false,
    }
}

/// The path names a function that the compiler provides.
pub open spec fn compiler_known(path: Chain<Segment>) -> bool {
    spells(path, "std"@, "time"@, "milliseconds"@) || spells(path, "std"@, "file"@, "open_read"@)
        || spells(path, "std"@, "file"@, "create"@) || spells(
        path,
        "std"@,
        "file"@,
        "open_read_path"@,
    ) || spells(path, "std"@, "file"@, "create_path"@) || spells(
        path,
        "std"@,
        "file"@,
        "try_open_read"@,
    ) || spells(path, "std"@, "file"@, "try_create"@) || spells(
        path,
        "std"@,
        "file"@,
        "try_open_read_path"@,
    ) || spells(path, "std"@, "file"@, "try_create_path"@) || spells(
        path,
        "std"@,
        "net"@,
        "connect"@,
    ) || spells(path, "std"@, "net"@, "try_connect"@) || spells(
        path,
        "std"@,
        "json"@,
        "format_json"@,
    ) || spells(path, "std"@, "log"@, "write"@)
}

pub(crate) fn is_compiler_known_import(path: &Chain<Segment>) -> (known: bool)
    ensures
        known == compiler_known(*path),
{
    check_spells(path, "std", "time", "milliseconds") || check_spells(
        path,
        "std",
        "file",
        "open_read",
    ) || check_spells(path, "std", "file", "create") || check_spells(
        path,
        "std",
        "file",
        "open_read_path",
    ) || check_spells(path, "std", "file", "create_path") || check_spells(
        path,
        "std",
        "file",
        "try_open_read",
    ) || check_spells(path, "std", "file", "try_create") || check_spells(
        path,
        "std",
        "file",
        "try_open_read_path",
    ) || check_spells(path, "std", "file", "try_create_path") || check_spells(
        path,
        "std",
        "net",
        "connect",
    ) || check_spells(path, "std", "net", "try_connect") || check_spells(
        path,
        "std",
        "json",
        "format_json",
    ) || check_spells(path, "std", "log", "write")
}

/// The import brings in a function that needs no module.
pub open spec fn is_provided(import: Import) -> bool {
    import.primitive || compiler_known(import.path)
}

pub(crate) fn check_provided(import: &Import) -> (provided: bool)
    ensures
        provided == is_provided(*import),
{
    import.primitive || is_compiler_known_import(&import.path)
}

/// The path names a module and a declaration in it.
pub open spec fn has_module_part(path: Chain<Segment>) -> bool {
    match path {
        Chain::Link(link) => link.rest is Link,
        Chain::Empty => false,
    }
}

pub(crate) fn check_module_part(path: &Chain<Segment>) -> (result: bool)
    ensures
        result == has_module_part(*path),
{
    match path {
        Chain::Link(link) => !link.rest.is_empty(),
        Chain::Empty => false,
    }
}

/// The module that an import leads to.
pub open spec fn import_module(import: Import) -> Option<ModuleId> {
    if is_provided(import) || !has_module_part(import.path) {
        None
    } else {
        match import.target {
            ImportTarget::Found(module) => Some(module),
            _ => None,
        }
    }
}

fn find_import_module(import: &Import) -> (module: Option<ModuleId>)
    ensures
        module == import_module(*import),
{
    if check_provided(import) || !check_module_part(&import.path) {
        None
    } else {
        match &import.target {
            ImportTarget::Found(module) => Some(*module),
            _ => None,
        }
    }
}

/// What is wrong with an import.
pub open spec fn import_fault(import: Import) -> Option<Diagnostic> {
    if is_provided(import) {
        None
    } else if !has_module_part(import.path) {
        Some(
            plain(
                "UnexpectedToken",
                Message::Text("an import must contain a module and a declaration name"),
                import.span,
            ),
        )
    } else {
        match import.target {
            ImportTarget::Found(_) => None,
            ImportTarget::UndeclaredDependency(package) => Some(
                plain(
                    "UndeclaredDependency",
                    Message::PathAndName(
                        "module `",
                        import.path.without_last(),
                        "` belongs to `",
                        package,
                        "`, which is not a direct dependency",
                    ),
                    import.span,
                ),
            ),
            ImportTarget::Missing => Some(
                plain(
                    "UnknownName",
                    Message::Path("module `", import.path.without_last(), "` does not exist"),
                    import.span,
                ),
            ),
        }
    }
}

fn module_part(path: &Chain<Segment>) -> (part: Chain<Segment>)
    ensures
        part == path.without_last(),
{
    match path {
        Chain::Empty => Chain::new(),
        Chain::Link(link) => link.rest.clone(),
    }
}

fn find_import_fault(import: &Import) -> (fault: Option<Diagnostic>)
    ensures
        fault == import_fault(*import),
{
    if check_provided(import) {
        None
    } else if !check_module_part(&import.path) {
        Some(
            Diagnostic::error(
                "UnexpectedToken",
                Message::Text("an import must contain a module and a declaration name"),
                import.span,
            ),
        )
    } else {
        match &import.target {
            ImportTarget::Found(_) => None,
            ImportTarget::UndeclaredDependency(package) => Some(
                Diagnostic::error(
                    "UndeclaredDependency",
                    Message::PathAndName(
                        "module `",
                        module_part(&import.path),
                        "` belongs to `",
                        package.clone(),
                        "`, which is not a direct dependency",
                    ),
                    import.span,
                ),
            ),
            ImportTarget::Missing => Some(
                Diagnostic::error(
                    "UnknownName",
                    Message::Path("module `", module_part(&import.path), "` does not exist"),
                    import.span,
                ),
            ),
        }
    }
}

impl Program {
    /// The first edge comes before the second: by the name of the imported
    /// module, then by the position of the import.
    pub open spec fn edge_before(self, left: ImportEdge, right: ImportEdge) -> bool {
        self.named_before(left.to, right.to) || (!self.named_before(right.to, left.to)
            && left.import_index < right.import_index)
    }

    fn is_edge_before(&self, left: ImportEdge, right: ImportEdge) -> (less: bool)
        ensures
            less == self.edge_before(left, right),
    {
        self.is_named_before(left.to, right.to) || (!self.is_named_before(right.to, left.to)
            && left.import_index < right.import_index)
    }

    pub open spec fn edge_placed(
        self,
        list: Chain<ImportEdge>,
        edge: ImportEdge,
    ) -> Chain<ImportEdge>
        decreases list,
    {
        match list {
            Chain::Empty => list.pushed(edge),
            Chain::Link(link) => if self.edge_before(edge, link.item) {
                self.edge_placed(link.rest, edge).pushed(link.item)
            } else {
                list.pushed(edge)
            },
        }
    }

    fn place_edge(&self, list: &Chain<ImportEdge>, edge: ImportEdge) -> (placed: Chain<ImportEdge>)
        ensures
            placed == self.edge_placed(*list, edge),
        decreases list,
    {
        match list {
            Chain::Empty => list.clone().with(edge),
            Chain::Link(link) => if self.is_edge_before(edge, link.item) {
                self.place_edge(&link.rest, edge).with(link.item)
            } else {
                list.clone().with(edge)
            },
        }
    }

    /// The edges of the imports below `count`, in order.
    pub open spec fn edges_below(self, module: ModuleId, imports: Seq<Import>, count: nat) -> Chain<
        ImportEdge,
    >
        decreases count,
    {
        if count == 0 {
            Chain::Empty
        } else {
            let before = self.edges_below(module, imports, (count - 1) as nat);
            match import_module(imports[count - 1]) {
                Some(to) => self.edge_placed(
                    before,
                    ImportEdge { from: module, to, import_index: (count - 1) as usize },
                ),
                None => before,
            }
        }
    }

    /// The imports of a module.
    pub open spec fn edges_of(self, module: ModuleId) -> Chain<ImportEdge> {
        match at(self.modules@, module.0) {
            Some(found) => self.edges_below(module, found.imports@, found.imports@.len()),
            None => Chain::Empty,
        }
    }

    fn collect_edges(&self, module: ModuleId, imports: &Vec<Import>) -> (edges: Chain<ImportEdge>)
        ensures
            edges == self.edges_below(module, imports@, imports@.len()),
    {
        let mut edges: Chain<ImportEdge> = Chain::new();
        let mut i: usize = 0;
        while i < imports.len()
            invariant
                i <= imports@.len(),
                edges == self.edges_below(module, imports@, i as nat),
            decreases imports@.len() - i,
        {
            match find_import_module(&imports[i]) {
                Some(to) => {
                    edges =
                    self.place_edge(&edges, ImportEdge { from: module, to, import_index: i });
                },
                None => {},
            }
            i = i + 1;
        }
        edges
    }
}

/// The faults of the imports below `count`, behind what was reported.
pub open spec fn import_faults(
    imports: Seq<Import>,
    count: nat,
    reported: Chain<Diagnostic>,
) -> Chain<
    Diagnostic,
>
    decreases count,
{
    if count == 0 {
        reported
    } else {
        let before = import_faults(imports, (count - 1) as nat, reported);
        match import_fault(imports[count - 1]) {
            Some(fault) => before.pushed(fault),
            None => before,
        }
    }
}

fn report_import_faults(imports: &Vec<Import>, reported: Chain<Diagnostic>) -> (all: Chain<
    Diagnostic,
>)
    ensures
        all == import_faults(imports@, imports@.len(), reported),
{
    let mut all: Chain<Diagnostic> = reported;
    let mut i: usize = 0;
    let ghost begun = all;
    while i < imports.len()
        invariant
            i <= imports@.len(),
            all == import_faults(imports@, i as nat, begun),
        decreases imports@.len() - i,
    {
        match find_import_fault(&imports[i]) {
            Some(fault) => {
                all = all.with(fault);
            },
            None => {},
        }
        i = i + 1;
    }
    all
}

/// The faults of the imports of modules.
pub open spec fn module_faults(program: &Program, modules: Chain<ModuleId>) -> Chain<Diagnostic>
    decreases modules,
{
    match modules {
        Chain::Empty => Chain::Empty,
        Chain::Link(link) => {
            let before = module_faults(program, link.rest);
            match at(program.modules@, link.item.0) {
                Some(found) => import_faults(found.imports@, found.imports@.len(), before),
                None => before,
            }
        },
    }
}

fn report_module_faults(program: &Program, modules: &Chain<ModuleId>) -> (all: Chain<Diagnostic>)
    ensures
        all == module_faults(program, *modules),
    decreases modules,
{
    match modules {
        Chain::Empty => Chain::new(),
        Chain::Link(link) => {
            let before = report_module_faults(program, &link.rest);
            match get(&program.modules, link.item.0) {
                Some(found) => report_import_faults(&found.imports, before),
                None => before,
            }
        },
    }
}

/// How far a walk over the modules has come with one of them.
#[derive(Clone, Copy, Debug, PartialEq, Eq, Structural)]
pub enum VisitState {
    New,
    Visiting,
    Done,
}

/// The state of a module; one that does not exist is done.
pub open spec fn visit_state(states: Seq<VisitState>, module: ModuleId) -> VisitState {
    match at(states, module.0) {
        Some(state) => state,
        None => VisitState::Done,
    }
}

fn find_state(states: &Vec<VisitState>, module: ModuleId) -> (state: VisitState)
    ensures
        state == visit_state(states@, module),
{
    match get(states, module.0) {
        Some(state) => *state,
        None => VisitState::Done,
    }
}

pub open spec fn state_set(states: Seq<VisitState>, module: ModuleId, state: VisitState) -> Seq<
    VisitState,
> {
    if module.0 < states.len() {
        states.update(module.0 as int, state)
    } else {
        states
    }
}

fn set_state(states: &mut Vec<VisitState>, module: ModuleId, state: VisitState)
    ensures
        final(states)@ == state_set(old(states)@, module, state),
{
    if (module.0 as usize) < states.len() {
        states.set(module.0 as usize, state);
    }
}

/// A walk that puts every module behind those that it imports.
pub struct OrderWalk {
    pub states: Seq<VisitState>,
    pub order: Chain<ModuleId>,
    /// No module was found to import itself, directly or not.
    pub acyclic: bool,
}

/// How deep imports are followed.
pub const IMPORT_LIMIT: u32 = u32::MAX;

/// The imports of a module of a graph.
pub open spec fn outgoing_of(outgoing: Seq<Chain<ImportEdge>>, module: ModuleId) -> Chain<
    ImportEdge,
> {
    match at(outgoing, module.0) {
        Some(edges) => edges,
        None => Chain::Empty,
    }
}

impl OrderWalk {
    /// A module is put behind those that it imports.
    pub open spec fn visit(
        self,
        outgoing: Seq<Chain<ImportEdge>>,
        module: ModuleId,
        budget: u32,
    ) -> OrderWalk
        decreases budget, 0nat,
    {
        if !self.acyclic {
            self
        } else {
            match visit_state(self.states, module) {
                VisitState::Done => self,
                VisitState::Visiting => OrderWalk { acyclic: false, ..self },
                VisitState::New => if budget == 0 {
                    OrderWalk { acyclic: false, ..self }
                } else {
                    let begun = OrderWalk {
                        states: state_set(self.states, module, VisitState::Visiting),
                        ..self
                    };
                    let walked = begun.visit_edges(
                        outgoing,
                        outgoing_of(outgoing, module),
                        (budget - 1) as u32,
                    );
                    if walked.acyclic {
                        OrderWalk {
                            states: state_set(walked.states, module, VisitState::Done),
                            order: walked.order.pushed(module),
                            acyclic: true,
                        }
                    } else {
                        walked
                    }
                },
            }
        }
    }

    pub open spec fn visit_edges(
        self,
        outgoing: Seq<Chain<ImportEdge>>,
        edges: Chain<ImportEdge>,
        budget: u32,
    ) -> OrderWalk
        decreases budget, 1nat + edges.spec_len(),
    {
        match edges {
            Chain::Empty => self,
            Chain::Link(link) => self.visit_edges(outgoing, link.rest, budget).visit(
                outgoing,
                link.item.to,
                budget,
            ),
        }
    }

    pub open spec fn visit_all(
        self,
        outgoing: Seq<Chain<ImportEdge>>,
        modules: Chain<ModuleId>,
    ) -> OrderWalk
        decreases modules,
    {
        match modules {
            Chain::Empty => self,
            Chain::Link(link) => self.visit_all(outgoing, link.rest).visit(
                outgoing,
                link.item,
                IMPORT_LIMIT,
            ),
        }
    }

    pub open spec fn start(count: nat) -> OrderWalk {
        OrderWalk {
            states: Seq::new(count, |i: int| VisitState::New),
            order: Chain::Empty,
            acyclic: true,
        }
    }
}

/// The executable walk.
struct OrderWalker {
    states: Vec<VisitState>,
    order: Chain<ModuleId>,
    acyclic: bool,
}

impl View for OrderWalker {
    type V = OrderWalk;

    closed spec fn view(&self) -> OrderWalk {
        OrderWalk { states: self.states@, order: self.order, acyclic: self.acyclic }
    }
}

fn new_states(count: usize) -> (states: Vec<VisitState>)
    ensures
        states@ == Seq::new(count as nat, |i: int| VisitState::New),
{
    let mut states: Vec<VisitState> = Vec::new();
    let mut i: usize = 0;
    while i < count
        invariant
            i <= count,
            states@ == Seq::new(i as nat, |j: int| VisitState::New),
        decreases count - i,
    {
        states.push(VisitState::New);
        i = i + 1;
    }
    states
}

impl OrderWalker {
    fn visit(&mut self, graph: &ModuleGraph, module: ModuleId, budget: u32)
        ensures
            final(self)@ == old(self)@.visit(graph.outgoing@, module, budget),
        decreases budget, 0nat,
    {
        if !self.acyclic {
            return;
        }
        match find_state(&self.states, module) {
            VisitState::Done => {},
            VisitState::Visiting => {
                self.acyclic = false;
            },
            VisitState::New => {
                if budget == 0 {
                    self.acyclic = false;
                } else {
                    set_state(&mut self.states, module, VisitState::Visiting);
                    let edges = graph.outgoing(module);
                    self.visit_edges(graph, &edges, budget - 1);
                    if self.acyclic {
                        set_state(&mut self.states, module, VisitState::Done);
                        self.order.push(module);
                    }
                }
            },
        }
    }

    fn visit_edges(&mut self, graph: &ModuleGraph, edges: &Chain<ImportEdge>, budget: u32)
        ensures
            final(self)@ == old(self)@.visit_edges(graph.outgoing@, *edges, budget),
        decreases budget, 1nat + edges.spec_len(),
    {
        match edges {
            Chain::Empty => {},
            Chain::Link(link) => {
                self.visit_edges(graph, &link.rest, budget);
                self.visit(graph, link.item.to, budget);
            },
        }
    }

    fn visit_all(&mut self, graph: &ModuleGraph, modules: &Chain<ModuleId>)
        ensures
            final(self)@ == old(self)@.visit_all(graph.outgoing@, *modules),
        decreases modules,
    {
        match modules {
            Chain::Empty => {},
            Chain::Link(link) => {
                self.visit_all(graph, &link.rest);
                self.visit(graph, link.item, IMPORT_LIMIT);
            },
        }
    }
}

/// An edge of the list leads to the module.
pub open spec fn leads_to(edges: Chain<ImportEdge>, to: ModuleId) -> bool
    decreases edges,
{
    match edges {
        Chain::Empty => false,
        Chain::Link(link) => link.item.to == to || leads_to(link.rest, to),
    }
}

fn check_leads_to(edges: &Chain<ImportEdge>, to: ModuleId) -> (result: bool)
    ensures
        result == leads_to(*edges, to),
    decreases edges,
{
    match edges {
        Chain::Empty => false,
        Chain::Link(link) => link.item.to == to || check_leads_to(&link.rest, to),
    }
}

impl ModuleGraph {
    /// The imports of a module.
    pub fn outgoing(&self, module: ModuleId) -> (edges: Chain<ImportEdge>)
        ensures
            edges == outgoing_of(self.outgoing@, module),
    {
        match get(&self.outgoing, module.0) {
            Some(edges) => edges.clone(),
            None => Chain::new(),
        }
    }

    /// Whether one module imports another.
    pub fn imports(&self, from: ModuleId, to: ModuleId) -> (result: bool)
        ensures
            result == leads_to(outgoing_of(self.outgoing@, from), to),
    {
        check_leads_to(&self.outgoing(from), to)
    }

    /// The modules with those first that others depend on, if no module
    /// depends on itself.
    pub open spec fn order(self, program: &Program) -> Option<Chain<ModuleId>> {
        let walk = OrderWalk::start(program.modules@.len()).visit_all(
            self.outgoing@,
            program.ordered_modules(),
        );
        if walk.acyclic {
            Some(walk.order)
        } else {
            None
        }
    }

    /// Puts the modules that others depend on first, if no module depends on
    /// itself.
    pub fn dependency_order(&self, program: &Program) -> (order: Option<Chain<ModuleId>>)
        requires
            program.modules_fit(),
        ensures
            order == self.order(program),
    {
        let modules = program.order_modules();
        let mut walker = OrderWalker {
            states: new_states(program.modules.len()),
            order: Chain::new(),
            acyclic: true,
        };
        walker.visit_all(self, &modules);
        if walker.acyclic {
            Some(walker.order)
        } else {
            None
        }
    }
}

/// The state of the search for import cycles.
pub struct CycleWalk {
    pub states: Seq<VisitState>,
    /// The modules that led here.
    pub stack: Chain<ModuleId>,
    pub reported: Chain<Chain<ModuleId>>,
    pub diagnostics: Chain<Diagnostic>,
}

/// The modules of the stack from a module on; the whole stack, if the module
/// is not on it.
pub open spec fn stack_from(stack: Chain<ModuleId>, module: ModuleId) -> Chain<ModuleId>
    decreases stack,
{
    match stack {
        Chain::Empty => Chain::Empty,
        Chain::Link(link) => if on_stack(link.rest, module) {
            stack_from(link.rest, module).pushed(link.item)
        } else if link.item == module {
            Chain::Empty.pushed(module)
        } else {
            stack
        },
    }
}

pub open spec fn on_stack(stack: Chain<ModuleId>, module: ModuleId) -> bool
    decreases stack,
{
    match stack {
        Chain::Empty => false,
        Chain::Link(link) => link.item == module || on_stack(link.rest, module),
    }
}

fn check_on_stack(stack: &Chain<ModuleId>, module: ModuleId) -> (result: bool)
    ensures
        result == on_stack(*stack, module),
    decreases stack,
{
    match stack {
        Chain::Empty => false,
        Chain::Link(link) => link.item == module || check_on_stack(&link.rest, module),
    }
}

fn take_stack_from(stack: &Chain<ModuleId>, module: ModuleId) -> (cycle: Chain<ModuleId>)
    ensures
        cycle == stack_from(*stack, module),
    decreases stack,
{
    match stack {
        Chain::Empty => Chain::new(),
        Chain::Link(link) => if check_on_stack(&link.rest, module) {
            take_stack_from(&link.rest, module).with(link.item)
        } else if link.item == module {
            Chain::new().with(module)
        } else {
            stack.clone()
        },
    }
}

impl Program {
    /// The first module of the list with the least name.
    pub open spec fn least_named(self, list: Chain<ModuleId>) -> Option<ModuleId>
        decreases list,
    {
        match list {
            Chain::Empty => None,
            Chain::Link(link) => match self.least_named(link.rest) {
                Some(least) => if self.named_before(link.item, least) {
                    Some(link.item)
                } else {
                    Some(least)
                },
                None => Some(link.item),
            },
        }
    }

    fn find_least_named(&self, list: &Chain<ModuleId>) -> (module: Option<ModuleId>)
        ensures
            module == self.least_named(*list),
        decreases list,
    {
        match list {
            Chain::Empty => None,
            Chain::Link(link) => match self.find_least_named(&link.rest) {
                Some(least) => if self.is_named_before(link.item, least) {
                    Some(link.item)
                } else {
                    Some(least)
                },
                None => Some(link.item),
            },
        }
    }
}

/// What stands before the first occurrence of a module.
pub open spec fn before_module(list: Chain<ModuleId>, module: ModuleId) -> Chain<ModuleId>
    decreases list,
{
    match list {
        Chain::Empty => Chain::Empty,
        Chain::Link(link) => if on_stack(link.rest, module) || link.item == module {
            before_module(link.rest, module)
        } else {
            list
        },
    }
}

fn take_before_module(list: &Chain<ModuleId>, module: ModuleId) -> (front: Chain<ModuleId>)
    ensures
        front == before_module(*list, module),
    decreases list,
{
    match list {
        Chain::Empty => Chain::new(),
        Chain::Link(link) => if check_on_stack(&link.rest, module) || link.item == module {
            take_before_module(&link.rest, module)
        } else {
            list.clone()
        },
    }
}

/// A cycle, turned so that it begins with its least named module.
pub open spec fn canonical_cycle(program: &Program, cycle: Chain<ModuleId>) -> Chain<ModuleId> {
    match program.least_named(cycle) {
        Some(least) => stack_from(cycle, least).joined(before_module(cycle, least)),
        None => cycle,
    }
}

fn canonicalize_cycle(program: &Program, cycle: &Chain<ModuleId>) -> (turned: Chain<ModuleId>)
    ensures
        turned == canonical_cycle(program, *cycle),
{
    match program.find_least_named(cycle) {
        Some(least) => take_stack_from(cycle, least).join(&take_before_module(cycle, least)),
        None => cycle.clone(),
    }
}

pub open spec fn first_module(list: Chain<ModuleId>) -> Option<ModuleId>
    decreases list,
{
    match list {
        Chain::Empty => None,
        Chain::Link(link) => match first_module(link.rest) {
            Some(found) => Some(found),
            None => Some(link.item),
        },
    }
}

fn find_first_module(list: &Chain<ModuleId>) -> (module: Option<ModuleId>)
    ensures
        module == first_module(*list),
    decreases list,
{
    match list {
        Chain::Empty => None,
        Chain::Link(link) => match find_first_module(&link.rest) {
            Some(found) => Some(found),
            None => Some(link.item),
        },
    }
}

pub open spec fn has_cycle_list(reported: Chain<Chain<ModuleId>>, cycle: Chain<ModuleId>) -> bool
    decreases reported,
{
    match reported {
        Chain::Empty => false,
        Chain::Link(link) => link.item == cycle || has_cycle_list(link.rest, cycle),
    }
}

fn contains_cycle(reported: &Chain<Chain<ModuleId>>, cycle: &Chain<ModuleId>) -> (result: bool)
    ensures
        result == has_cycle_list(*reported, *cycle),
    decreases reported,
{
    match reported {
        Chain::Empty => false,
        Chain::Link(link) => crate::chain::Same::same(&link.item, cycle) || contains_cycle(
            &link.rest,
            cycle,
        ),
    }
}

/// Where an import stands.
pub open spec fn import_span(program: &Program, module: ModuleId, index: usize) -> Span {
    match at(program.modules@, module.0) {
        Some(found) => if index < found.imports@.len() {
            found.imports@[index as int].span
        } else {
            no_span()
        },
        None => no_span(),
    }
}

fn find_import_span(program: &Program, module: ModuleId, index: usize) -> (span: Span)
    ensures
        span == import_span(program, module, index),
{
    match get(&program.modules, module.0) {
        Some(found) => if index < found.imports.len() {
            found.imports[index].span
        } else {
            Span { file: 0, start: 0, end: 0 }
        },
        None => Span { file: 0, start: 0, end: 0 },
    }
}

/// What is said of an import cycle.
pub open spec fn cycle_message(cycle: Chain<ModuleId>) -> Message {
    Message::ModuleList(
        "module import cycle: ",
        match first_module(cycle) {
            Some(first) => cycle.pushed(first),
            None => cycle,
        },
    )
}

fn make_cycle_message(cycle: &Chain<ModuleId>) -> (message: Message)
    ensures
        message == cycle_message(*cycle),
{
    Message::ModuleList(
        "module import cycle: ",
        match find_first_module(cycle) {
            Some(first) => cycle.clone().with(first),
            None => cycle.clone(),
        },
    )
}

impl CycleWalk {
    /// An edge back to a module of the stack closes a cycle, which is
    /// reported once.
    pub open spec fn close_cycle(self, program: &Program, edge: ImportEdge) -> CycleWalk {
        let cycle = canonical_cycle(program, stack_from(self.stack, edge.to));
        if has_cycle_list(self.reported, cycle) {
            self
        } else {
            CycleWalk {
                reported: self.reported.pushed(cycle),
                diagnostics: self.diagnostics.pushed(
                    plain(
                        "ModuleCycle",
                        cycle_message(cycle),
                        import_span(program, edge.from, edge.import_index),
                    ),
                ),
                ..self
            }
        }
    }

    /// The imports of a module are followed, if they have not been.
    pub open spec fn visit(
        self,
        program: &Program,
        outgoing: Seq<Chain<ImportEdge>>,
        module: ModuleId,
        budget: u32,
    ) -> CycleWalk
        decreases budget, 0nat,
    {
        if visit_state(self.states, module) != VisitState::New || budget == 0 {
            self
        } else {
            let begun = CycleWalk {
                states: state_set(self.states, module, VisitState::Visiting),
                stack: self.stack.pushed(module),
                ..self
            };
            let walked = begun.visit_edges(
                program,
                outgoing,
                outgoing_of(outgoing, module),
                (budget - 1) as u32,
            );
            CycleWalk {
                states: state_set(walked.states, module, VisitState::Done),
                stack: walked.stack.without_last(),
                ..walked
            }
        }
    }

    pub open spec fn visit_edges(
        self,
        program: &Program,
        outgoing: Seq<Chain<ImportEdge>>,
        edges: Chain<ImportEdge>,
        budget: u32,
    ) -> CycleWalk
        decreases budget, 1nat + edges.spec_len(),
    {
        match edges {
            Chain::Empty => self,
            Chain::Link(link) => {
                let w = self.visit_edges(program, outgoing, link.rest, budget);
                if visit_state(w.states, link.item.to) == VisitState::Visiting {
                    w.close_cycle(program, link.item)
                } else {
                    w.visit(program, outgoing, link.item.to, budget)
                }
            },
        }
    }

    pub open spec fn visit_all(
        self,
        program: &Program,
        outgoing: Seq<Chain<ImportEdge>>,
        modules: Chain<ModuleId>,
    ) -> CycleWalk
        decreases modules,
    {
        match modules {
            Chain::Empty => self,
            Chain::Link(link) => self.visit_all(program, outgoing, link.rest).visit(
                program,
                outgoing,
                link.item,
                IMPORT_LIMIT,
            ),
        }
    }

    pub open spec fn start(count: nat, diagnostics: Chain<Diagnostic>) -> CycleWalk {
        CycleWalk {
            states: Seq::new(count, |i: int| VisitState::New),
            stack: Chain::Empty,
            reported: Chain::Empty,
            diagnostics,
        }
    }
}

/// The executable search for import cycles.
struct CycleWalker {
    states: Vec<VisitState>,
    stack: Chain<ModuleId>,
    reported: Chain<Chain<ModuleId>>,
    diagnostics: Chain<Diagnostic>,
}

impl View for CycleWalker {
    type V = CycleWalk;

    closed spec fn view(&self) -> CycleWalk {
        CycleWalk {
            states: self.states@,
            stack: self.stack,
            reported: self.reported,
            diagnostics: self.diagnostics,
        }
    }
}

impl CycleWalker {
    fn close_cycle(&mut self, program: &Program, edge: ImportEdge)
        ensures
            final(self)@ == old(self)@.close_cycle(program, edge),
    {
        let cycle = canonicalize_cycle(program, &take_stack_from(&self.stack, edge.to));
        if !contains_cycle(&self.reported, &cycle) {
            let diagnostic = Diagnostic::error(
                "ModuleCycle",
                make_cycle_message(&cycle),
                find_import_span(program, edge.from, edge.import_index),
            );
            self.reported.push(cycle);
            self.diagnostics.push(diagnostic);
        }
    }

    fn visit_for_cycles(
        &mut self,
        program: &Program,
        graph: &ModuleGraph,
        module: ModuleId,
        budget: u32,
    )
        ensures
            final(self)@ == old(self)@.visit(program, graph.outgoing@, module, budget),
        decreases budget, 0nat,
    {
        if find_state(&self.states, module) == VisitState::New && budget > 0 {
            set_state(&mut self.states, module, VisitState::Visiting);
            self.stack.push(module);
            let edges = graph.outgoing(module);
            self.visit_edges(program, graph, &edges, budget - 1);
            set_state(&mut self.states, module, VisitState::Done);
            self.stack.drop_last();
        }
    }

    fn visit_edges(
        &mut self,
        program: &Program,
        graph: &ModuleGraph,
        edges: &Chain<ImportEdge>,
        budget: u32,
    )
        ensures
            final(self)@ == old(self)@.visit_edges(program, graph.outgoing@, *edges, budget),
        decreases budget, 1nat + edges.spec_len(),
    {
        match edges {
            Chain::Empty => {},
            Chain::Link(link) => {
                self.visit_edges(program, graph, &link.rest, budget);
                if find_state(&self.states, link.item.to) == VisitState::Visiting {
                    self.close_cycle(program, link.item);
                } else {
                    self.visit_for_cycles(program, graph, link.item.to, budget);
                }
            },
        }
    }

    fn visit_all(&mut self, program: &Program, graph: &ModuleGraph, modules: &Chain<ModuleId>)
        ensures
            final(self)@ == old(self)@.visit_all(program, graph.outgoing@, *modules),
        decreases modules,
    {
        match modules {
            Chain::Empty => {},
            Chain::Link(link) => {
                self.visit_all(program, graph, &link.rest);
                self.visit_for_cycles(program, graph, link.item, IMPORT_LIMIT);
            },
        }
    }
}

impl Program {
    /// The imports of every module.
    pub open spec fn import_graph(self) -> Seq<Chain<ImportEdge>> {
        Seq::new(self.modules@.len(), |i: int| self.edges_of(ModuleId(i as u32)))
    }

    /// The search for import cycles, behind the faults of single imports.
    pub open spec fn cycle_walk(self) -> CycleWalk {
        CycleWalk::start(
            self.modules@.len(),
            module_faults(&self, self.ordered_modules()),
        ).visit_all(&self, self.import_graph(), self.ordered_modules())
    }
}

impl ModuleGraphBuild {
    /// Finds which module imports which, and reports imports that lead
    /// nowhere and cycles of imports.
    pub fn build(program: &Program) -> (build: Self)
        requires
            program.modules_fit(),
        ensures
            build.graph.outgoing@ == program.import_graph(),
            build.diagnostics == program.cycle_walk().diagnostics,
    {
        let modules = program.order_modules();
        let count: usize = program.modules.len();
        let mut outgoing: Vec<Chain<ImportEdge>> = Vec::new();
        let mut i: usize = 0;
        while i < count
            invariant
                i <= count,
                count == program.modules@.len(),
                program.modules_fit(),
                outgoing@.len() == i,
                forall|x: int|
                    0 <= x < i ==> #[trigger] outgoing@[x] == program.edges_of(
                        ModuleId(x as u32),
                    ),
            decreases count - i,
        {
            let edges = program.collect_edges(ModuleId(i as u32), &program.modules[i].imports);
            outgoing.push(edges);
            i = i + 1;
        }
        assert(outgoing@ =~= program.import_graph());
        let graph = ModuleGraph { outgoing };
        let mut walker = CycleWalker {
            states: new_states(count),
            stack: Chain::new(),
            reported: Chain::new(),
            diagnostics: report_module_faults(program, &modules),
        };
        walker.visit_all(program, &graph, &modules);
        ModuleGraphBuild { graph, diagnostics: walker.diagnostics }
    }
}

} // verus!
