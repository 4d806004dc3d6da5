//! The analysis of a whole program.

use vstd::prelude::*;

use crate::bodies::BodySources;
use crate::chain::Chain;
use crate::conformance::ImplIndex;
use crate::def_map::DefMapBuild;
#[allow(unused_imports)]
use crate::diagnostics::{adds_to, lemma_adds_nothing, lemma_adds_one, lemma_adds_through};
use crate::diagnostics::Diagnostic;
#[allow(unused_imports)]
use crate::growth::{grows, later, lemma_later_itself, lemma_later_through};
use crate::hir::Program;
use crate::ids::TyId;
use crate::module_graph::{ModuleGraph, ModuleGraphBuild};
use crate::rendering::sort_diagnostics;
#[allow(unused_imports)]
use crate::rendering::{diagnostics_sorted, law_diagnostics_sorted};
use crate::resolve::{Sources, TypeResolver};
#[allow(unused_imports)]
use crate::resolve::Names;
use crate::semantics::{
    BodySemantics, CanonicalConcepts, CanonicalStdItems, ConformanceSemantics, ConstantValue,
    FloatFact, FloatOperation, Signature,
};
use crate::survey::{Analyzer, SurveyState};
#[allow(unused_imports)]
use crate::survey::Survey;
use crate::table::Table;
use crate::ty::TyInterner;
#[allow(unused_imports)]
use crate::ty::{first_types, types_wf, TyData};

verus! {

broadcast use {
    lemma_adds_nothing,
    lemma_adds_one,
    lemma_adds_through,
    lemma_later_itself,
    lemma_later_through,
};

/// What is known of a program after its analysis.
pub struct TypedProgram {
    pub types: TyInterner,
    pub resolved_type_refs: Table<TyId>,
    pub signatures: Table<Signature>,
    pub conformances: Table<ConformanceSemantics>,
    pub constants: Table<ConstantValue>,
    pub bodies: Table<BodySemantics>,
}

/// The result of an analysis. What was found of a program remains available
/// when it has errors, but only a program without errors may be executed.
pub struct Analysis {
    pub typed: TypedProgram,
    pub module_graph: ModuleGraph,
    pub def_maps: DefMapBuild,
    pub impl_index: ImplIndex,
    /// The concepts that the language knows.
    pub canonical_concepts: CanonicalConcepts,
    /// The declarations of the standard library that the language knows.
    pub canonical_std_items: CanonicalStdItems,
    /// The errors of the program.
    pub diagnostics: Chain<Diagnostic>,
    /// The float operations whose results the constants lack. While there are
    /// any, the analysis is to be made again with their results.
    pub float_requests: Chain<FloatOperation>,
}

impl SurveyState {
    pub open spec fn start() -> SurveyState {
        SurveyState {
            signatures: Table::empty(),
            conformances: Table::empty(),
            impl_index: ImplIndex { buckets: Chain::Empty },
            constants: Table::empty(),
            bodies: Table::empty(),
            float_requests: Chain::Empty,
        }
    }

    fn new() -> (state: Self)
        ensures
            state == SurveyState::start(),
    {
        SurveyState {
            signatures: Table::new(),
            conformances: Table::new(),
            impl_index: ImplIndex { buckets: Chain::new() },
            constants: Table::new(),
            bodies: Table::new(),
            float_requests: Chain::new(),
        }
    }
}

impl Program {
    /// What there is to report of the modules and their names.
    pub open spec fn module_reports(self) -> Chain<Diagnostic> {
        self.cycle_walk().diagnostics.joined(self.scopes().diagnostics)
    }
}

impl Survey {
    /// The state in which the analysis of a program begins.
    pub open spec fn start(program: &Program, types: Seq<TyData>) -> Survey {
        Survey {
            names: Names {
                types,
                type_refs: Table::empty(),
                diagnostics: program.module_reports(),
            },
            st: SurveyState::start(),
        }
    }

    /// The declarations of a program are analysed.
    pub open spec fn declarations_analyzed(self, cx: &Sources) -> Survey {
        self.collect_signatures(cx).validate_recursive_value_types(cx).validate_dynamic_concepts(
            cx,
        ).build_conformances(cx).validate_resource_concepts(cx, cx.program.canonical_concepts())
    }
}

/// What is known of a program after its analysis, before its diagnostics are
/// put in order.
pub open spec fn surveyed(
    program: &Program,
    types: Seq<TyData>,
    floats: Chain<FloatFact>,
    previous: Table<BodySemantics>,
    reusable: Chain<u32>,
) -> Survey {
    let sources = Sources { program, items: program.canonical_std_items() };
    let bodies = BodySources {
        sources: &sources,
        canonical_concepts: program.canonical_concepts(),
        floats: &floats,
        previous: &previous,
        reusable: &reusable,
    };
    Survey::start(program, types).declarations_analyzed(&sources).check_bodies(&bodies)
}

impl Analysis {
    /// The analysis is that of the program.
    pub open spec fn is_of(self, program: &Program, survey: Survey) -> bool {
        &&& self.typed.types@ == survey.names.types
        &&& types_wf(self.typed.types@)
        &&& self.typed.resolved_type_refs == survey.names.type_refs
        &&& self.typed.signatures == survey.st.signatures
        &&& self.typed.conformances == survey.st.conformances
        &&& self.typed.constants == survey.st.constants
        &&& self.typed.bodies == survey.st.bodies
        &&& self.module_graph.outgoing@ == program.import_graph()
        &&& self.def_maps@ == program.scopes()
        &&& self.impl_index == survey.st.impl_index
        &&& self.canonical_concepts == program.canonical_concepts()
        &&& self.canonical_std_items == program.canonical_std_items()
        &&& self.diagnostics == diagnostics_sorted(
            program,
            survey.names.types,
            survey.names.diagnostics,
        )
        &&& self.float_requests == survey.st.float_requests
    }

    /// Whether the program has errors.
    pub fn has_errors(&self) -> (errors: bool)
        ensures
            errors == (self.diagnostics.seq().len() > 0),
    {
        !self.diagnostics.is_empty()
    }
}

/// Every diagnostic of one list stands in another.
pub open spec fn all_reported(some: Chain<Diagnostic>, all: Chain<Diagnostic>) -> bool {
    forall|i: int|
        0 <= i < some.seq().len() ==> all.seq().contains(#[trigger] some.seq()[i])
}

proof fn lemma_all_reported(
    program: &Program,
    types: Seq<TyData>,
    some: Chain<Diagnostic>,
    all: Chain<Diagnostic>,
)
    requires
        adds_to(some, all),
    ensures
        all_reported(some, diagnostics_sorted(program, types, all)),
{
    broadcast use vstd::seq_lib::group_to_multiset_ensures;

    reveal(adds_to);
    law_diagnostics_sorted(program, types, all);
    let sorted = diagnostics_sorted(program, types, all);
    assert forall|i: int| 0 <= i < some.seq().len() implies sorted.seq().contains(
        #[trigger] some.seq()[i],
    ) by {
        assert(all.seq()[i] == some.seq()[i]);
        assert(all.seq().contains(all.seq()[i]));
        assert(all.seq().to_multiset().count(some.seq()[i]) > 0);
        assert(sorted.seq().to_multiset().count(some.seq()[i]) > 0);
    }
}

fn analyze_with_reused_bodies(
    program: &Program,
    types: TyInterner,
    floats: &Chain<FloatFact>,
    previous: &Table<BodySemantics>,
    reusable: &Chain<u32>,
) -> (analysis: Analysis)
    requires
        program.fits(),
        program.modules_fit(),
        types_wf(types@),
    ensures
        analysis.is_of(program, surveyed(program, types@, *floats, *previous, *reusable)),
        later(types@, analysis.typed.types@),
        all_reported(program.module_reports(), analysis.diagnostics),
{
    let graph = ModuleGraphBuild::build(program);
    let def_maps = DefMapBuild::build(program);
    let items = program.resolve_canonical_std_items();
    let concepts = program.resolve_canonical_concepts();
    let sources = Sources { program, items };
    let mut analyzer = Analyzer {
        names: TypeResolver {
            types,
            type_refs: Table::new(),
            diagnostics: graph.diagnostics.join(&def_maps.diagnostics),
        },
        st: SurveyState::new(),
    };
    analyzer.collect_signatures(&sources);
    analyzer.validate_recursive_value_types(&sources);
    analyzer.validate_dynamic_concepts(&sources);
    analyzer.build_conformances(&sources);
    analyzer.validate_resource_concepts(&sources, concepts);
    analyzer.check_bodies(
        &BodySources {
            sources: &sources,
            canonical_concepts: concepts,
            floats,
            previous,
            reusable,
        },
        &def_maps,
    );
    let diagnostics = sort_diagnostics(
        program,
        &analyzer.names.types,
        &analyzer.names.diagnostics,
    );
    proof {
        lemma_all_reported(
            program,
            analyzer.names.types@,
            program.module_reports(),
            analyzer.names.diagnostics,
        );
    }
    Analysis {
        typed: TypedProgram {
            types: analyzer.names.types,
            resolved_type_refs: analyzer.names.type_refs,
            signatures: analyzer.st.signatures,
            conformances: analyzer.st.conformances,
            constants: analyzer.st.constants,
            bodies: analyzer.st.bodies,
        },
        module_graph: graph.graph,
        def_maps,
        impl_index: analyzer.st.impl_index,
        canonical_concepts: concepts,
        canonical_std_items: items,
        diagnostics,
        float_requests: analyzer.st.float_requests,
    }
}

/// Resolves modules, declarations and all declared types of a program, then
/// checks its bodies. The results of float operations that its constants need
/// are given as far as they are known. Nothing that is reported of the modules
/// and their names is lost.
pub fn analyze(program: &Program, floats: &Chain<FloatFact>) -> (analysis: Analysis)
    requires
        program.fits(),
        program.modules_fit(),
    ensures
        all_reported(program.module_reports(), analysis.diagnostics),
        analysis.is_of(
            program,
            surveyed(program, first_types(), *floats, Table::empty(), Chain::Empty),
        ),
{
    analyze_with_reused_bodies(
        program,
        TyInterner::new(),
        floats,
        &Table::new(),
        &Chain::new(),
    )
}

/// Analyses the declarations of a program and checks those of its bodies that
/// are not `reusable`; of the others, what an earlier analysis found stands.
/// The earlier analysis must be one without errors, of the same declarations.
/// Its types are kept: each of them denotes in the result what it denoted
/// before, and new ones come behind them.
pub fn analyze_reusing_bodies(
    program: &Program,
    floats: &Chain<FloatFact>,
    previous: &Analysis,
    reusable: &Chain<u32>,
) -> (analysis: Analysis)
    requires
        program.fits(),
        program.modules_fit(),
        types_wf(previous.typed.types@),
    ensures
        all_reported(program.module_reports(), analysis.diagnostics),
        grows(previous.typed.types@, analysis.typed.types@),
        analysis.is_of(
            program,
            surveyed(
                program,
                previous.typed.types@,
                *floats,
                previous.typed.bodies,
                *reusable,
            ),
        ),
{
    proof {
        reveal(later);
    }
    analyze_with_reused_bodies(
        program,
        previous.typed.types.clone(),
        floats,
        &previous.typed.bodies,
        reusable,
    )
}

} // verus!
