//! Semantic analysis of programs: types, concepts, names, modules and bodies.

use vstd::prelude::*;

pub mod access;
pub mod analysis;
pub mod arithmetic;
pub mod arrivals;
pub mod associated;
pub mod bodies;
pub mod body;
pub mod borrows;
pub mod call_types;
pub mod calling;
pub mod calls;
pub mod canonical;
pub mod cases;
pub mod chain;
pub mod check;
pub mod checking;
pub mod coerce;
pub mod coherence;
pub mod conformance;
pub mod conforming;
pub mod constant_chains;
pub mod constants;
pub mod converting;
pub mod coverage;
pub mod declare;
pub mod def_map;
pub mod denotation;
pub mod descents;
pub mod diagnostics;
pub mod dispatch;
pub mod duties;
pub mod dynamic;
pub mod entries;
pub mod encounters;
pub mod entry;
pub mod flow;
pub mod framing;
pub mod graph;
pub mod growth;
pub mod heads;
pub mod hir;
pub mod ids;
pub mod images;
pub mod impl_scope;
pub mod implement;
pub mod instances;
pub mod joins;
pub mod json_escapes;
pub mod json_layout;
pub mod json_stage;
pub mod json_value;
pub mod judgements;
pub mod literals;
pub mod lookup;
pub mod matching;
pub mod meaning;
pub mod measures;
pub mod methods;
pub mod module_graph;
pub mod module_order;
pub mod naming;
pub mod obligations;
pub mod operators;
pub mod order;
pub mod outcomes;
pub mod overlap;
pub mod ownership;
pub mod passages;
pub mod patterns;
pub mod plans;
pub mod proofs;
pub mod reaching;
pub mod records;
pub mod recursive;
pub mod rendering;
pub mod resolve;
pub mod selection;
pub mod semantics;
pub mod sequences;
pub mod solver;
pub mod spelling;
pub mod standards;
pub mod state;
pub mod statements;
pub mod steps;
pub mod structure;
pub mod substitution;
pub mod survey;
pub mod symbolic;
pub mod table;
pub mod tasks;
pub mod ty;
pub mod typed_json;
pub mod typing;
pub mod unify;
pub mod value;
pub mod verdicts;
pub mod witness;
pub mod written;

verus! {

} // verus!
