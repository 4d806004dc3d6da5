use loom_sema::chain::{Chain, Same};
use loom_sema::conformance::{
    heads_may_unify, match_target, Goal, ImplHeader, ImplIndex, ParamEnv, SolveFailure, WitnessSource,
};
use loom_sema::ids::{DefId, GenericParamId, TyId};
use loom_sema::solver::ConformanceSolver;
use loom_sema::substitution::Substitution;
use loom_sema::ty::{
    AssociatedTypeBinding, BuiltinType, ConceptInstance, Mutability, TyData, TyInterner,
};
use loom_sema::unify::{
    contains_unbound_param, is_strict_structural_subterm, type_parameters_in, unify_type,
};

fn list<T>(items: Vec<T>) -> Chain<T> {
    Chain::from_vec(items)
}

fn nominal(types: &mut TyInterner, definition: u32, arguments: Vec<TyId>) -> TyId {
    types.intern(TyData::Nominal {
        definition: DefId(definition),
        arguments: list(arguments),
    })
}

fn instance(concept: u32) -> ConceptInstance {
    ConceptInstance {
        concept: DefId(concept),
        bindings: list(vec![]),
    }
}

fn plain_header(definition: u32, concept: u32, target: TyId) -> ImplHeader {
    ImplHeader {
        definition: DefId(definition),
        generic_params: list(vec![]),
        concept: DefId(concept),
        target,
        conditions: list(vec![]),
        associated_types: list(vec![]),
    }
}

#[test]
fn conditional_conformance_uses_only_available_parameter_proof() {
    let mut types = TyInterner::new();
    let parameter = GenericParamId(0);
    let parameter_ty = types.intern(TyData::Param(parameter));
    let boxed_parameter = nominal(&mut types, 2, vec![parameter_ty]);
    let text_ty = nominal(&mut types, 3, vec![]);
    let boxed_text = nominal(&mut types, 2, vec![text_ty]);

    let mut index = ImplIndex::default();
    index.insert(ImplHeader {
        definition: DefId(10),
        generic_params: list(vec![parameter]),
        concept: DefId(1),
        target: boxed_parameter,
        conditions: list(vec![Goal {
            self_ty: parameter_ty,
            concept: instance(1),
        }]),
        associated_types: list(vec![]),
    });
    index.finish();

    let goal = Goal {
        self_ty: boxed_text,
        concept: instance(1),
    };
    let mut solver = ConformanceSolver::new(&index, &mut types);
    assert!(matches!(
        solver.solve(&goal, &ParamEnv::default()),
        Err(SolveFailure::Missing)
    ));

    let environment = ParamEnv {
        bounds: list(vec![Goal {
            self_ty: text_ty,
            concept: instance(1),
        }]),
    };
    let selected = match solver.solve(&goal, &environment) {
        Ok(selected) => selected,
        Err(_) => panic!("the bound proves the condition"),
    };
    assert!(matches!(
        selected.source,
        WitnessSource::Implementation(DefId(10))
    ));
}

#[test]
fn overlap_is_checked_only_within_each_concept_bucket() {
    let mut types = TyInterner::new();
    let price = nominal(&mut types, 5, vec![]);
    let mut index = ImplIndex::default();
    for (implementation, concept) in [(10, 1), (11, 2)] {
        index.insert(plain_header(implementation, concept, price));
    }
    assert!(index.overlapping_pairs(&types).is_empty());
}

#[test]
fn text_map_heads_substitute_their_value_parameter() {
    let mut types = TyInterner::new();
    let parameter = GenericParamId(0);
    let parameter_ty = types.intern(TyData::Param(parameter));
    let map_parameter = types.intern(TyData::TextMap(parameter_ty));
    let text = types.builtin(BuiltinType::Text);
    let map_text = types.intern(TyData::TextMap(text));
    let implementation = DefId(10);

    let mut index = ImplIndex::default();
    index.insert(ImplHeader {
        definition: implementation,
        generic_params: list(vec![parameter]),
        concept: DefId(1),
        target: map_parameter,
        conditions: list(vec![]),
        associated_types: list(vec![]),
    });
    index.finish();

    let goal = Goal {
        self_ty: map_text,
        concept: instance(1),
    };
    let mut solver = ConformanceSolver::new(&index, &mut types);
    let selected = match solver.solve(&goal, &ParamEnv::default()) {
        Ok(selected) => selected,
        Err(_) => panic!("the head matches"),
    };
    assert!(matches!(
        selected.source,
        WitnessSource::Implementation(DefId(10))
    ));
    assert_eq!(selected.substitution.get(parameter), Some(text));
}

#[test]
fn two_matching_heads_are_ambiguous() {
    let mut types = TyInterner::new();
    let price = nominal(&mut types, 5, vec![]);
    let mut index = ImplIndex::default();
    index.insert(plain_header(11, 1, price));
    index.insert(plain_header(10, 1, price));
    index.finish();
    let pairs = index.overlapping_pairs(&types);
    assert_eq!(pairs.len(), 1);
    assert!(matches!(pairs.last(), Some((DefId(10), DefId(11)))));
    let goal = Goal {
        self_ty: price,
        concept: instance(1),
    };
    let mut solver = ConformanceSolver::new(&index, &mut types);
    assert!(matches!(
        solver.solve(&goal, &ParamEnv::default()),
        Err(SolveFailure::Ambiguous(_))
    ));
}

#[test]
fn a_condition_that_needs_itself_is_a_cycle() {
    let mut types = TyInterner::new();
    let price = nominal(&mut types, 5, vec![]);
    let mut index = ImplIndex::default();
    index.insert(ImplHeader {
        definition: DefId(10),
        generic_params: list(vec![]),
        concept: DefId(1),
        target: price,
        conditions: list(vec![Goal {
            self_ty: price,
            concept: instance(1),
        }]),
        associated_types: list(vec![]),
    });
    index.finish();
    let goal = Goal {
        self_ty: price,
        concept: instance(1),
    };
    let mut solver = ConformanceSolver::new(&index, &mut types);
    assert!(matches!(
        solver.solve(&goal, &ParamEnv::default()),
        Err(SolveFailure::Cycle(_))
    ));
}

#[test]
fn a_fixed_associated_type_must_be_the_one_bound() {
    let mut types = TyInterner::new();
    let price = nominal(&mut types, 5, vec![]);
    let text = types.builtin(BuiltinType::Text);
    let int = types.builtin(BuiltinType::Int);
    let mut header = plain_header(10, 1, price);
    header.associated_types = list(vec![AssociatedTypeBinding {
        associated_type: DefId(7),
        ty: int,
    }]);
    let mut index = ImplIndex::default();
    index.insert(header);
    index.finish();
    let goal = Goal {
        self_ty: price,
        concept: ConceptInstance {
            concept: DefId(1),
            bindings: list(vec![AssociatedTypeBinding {
                associated_type: DefId(7),
                ty: text,
            }]),
        },
    };
    let mut solver = ConformanceSolver::new(&index, &mut types);
    match solver.solve(&goal, &ParamEnv::default()) {
        Err(SolveFailure::AssociatedTypeMismatch {
            associated_type,
            expected,
            actual,
        }) => {
            assert_eq!(associated_type, DefId(7));
            assert_eq!(expected, text);
            assert_eq!(actual, int);
        }
        _ => panic!("the binding differs"),
    }
}

#[test]
fn a_bound_of_a_parameter_comes_before_implementations() {
    let mut types = TyInterner::new();
    let price = nominal(&mut types, 5, vec![]);
    let mut index = ImplIndex::default();
    index.insert(plain_header(10, 1, price));
    index.finish();
    let goal = Goal {
        self_ty: price,
        concept: instance(1),
    };
    let environment = ParamEnv {
        bounds: list(vec![Goal {
            self_ty: price,
            concept: instance(1),
        }]),
    };
    let mut solver = ConformanceSolver::new(&index, &mut types);
    let selected = match solver.solve(&goal, &environment) {
        Ok(selected) => selected,
        Err(_) => panic!("the bound is there"),
    };
    assert!(matches!(selected.source, WitnessSource::ParamBound(0)));
}

fn definitions(headers: &Chain<ImplHeader>) -> Vec<u32> {
    let mut found = vec![];
    let mut current = headers;
    while let Chain::Link(link) = current {
        found.push(link.item.definition.0);
        current = &link.rest;
    }
    found.reverse();
    found
}

#[test]
fn a_finished_index_does_not_show_the_order_of_insertion() {
    let types = TyInterner::new();
    let int = types.builtin(BuiltinType::Int);
    let text = types.builtin(BuiltinType::Text);
    for order in [[4, 9, 6], [9, 6, 4], [6, 4, 9]] {
        let mut index = ImplIndex::default();
        for definition in order {
            let target = if definition == 6 { text } else { int };
            index.insert(plain_header(definition, 1, target));
            index.insert(plain_header(definition + 100, 2, target));
        }
        index.finish();
        assert_eq!(definitions(&index.for_concept(DefId(1))), [4, 6, 9]);
        assert_eq!(definitions(&index.for_concept(DefId(2))), [104, 106, 109]);
        assert!(definitions(&index.for_concept(DefId(3))).is_empty());
        assert!(index.header(DefId(6)).is_some());
        assert!(index.header(DefId(7)).is_none());
        let mut pairs = vec![];
        let found = index.overlapping_pairs(&types);
        let mut current = &found;
        while let Chain::Link(link) = current {
            pairs.push(link.item);
            current = &link.rest;
        }
        pairs.reverse();
        assert_eq!(
            pairs,
            [(DefId(4), DefId(9)), (DefId(104), DefId(109))]
        );
    }
}

#[test]
fn a_concept_that_nothing_implements_is_missing() {
    let mut types = TyInterner::new();
    let int = types.builtin(BuiltinType::Int);
    let index = ImplIndex::default();
    let mut solver = ConformanceSolver::new(&index, &mut types);
    let goal = Goal {
        self_ty: int,
        concept: instance(1),
    };
    assert!(matches!(
        solver.solve(&goal, &ParamEnv::default()),
        Err(SolveFailure::Missing)
    ));
}

#[test]
fn interned_types_have_one_name_and_can_be_read_back() {
    let mut types = TyInterner::new();
    let int = types.builtin(BuiltinType::Int);
    let option = types.intern(TyData::Option(int));
    let list_of = types.intern(TyData::List(option));
    assert_eq!(types.intern(TyData::Option(int)), option);
    assert_ne!(option, list_of);
    assert!(matches!(types.data(option), TyData::Option(element) if *element == int));
    assert!(matches!(types.data(list_of), TyData::List(element) if *element == option));
}

#[test]
fn a_match_makes_the_pattern_an_instance() {
    let mut types = TyInterner::new();
    let int = types.builtin(BuiltinType::Int);
    let parameter = types.intern(TyData::Param(GenericParamId(0)));
    let pattern = types.intern(TyData::Result {
        ok: parameter,
        error: parameter,
    });
    let actual = types.intern(TyData::Result {
        ok: int,
        error: int,
    });
    let mut substitution = Substitution::default();
    assert!(match_target(&types, pattern, actual, &mut substitution));
    assert_eq!(substitution.get(GenericParamId(0)), Some(int));
    assert_eq!(types.substitute(pattern, &substitution), actual);
    assert_eq!(types.substitute(pattern, &Substitution::default()), pattern);
    assert_eq!(types.substitute(actual, &substitution), actual);
    let text = types.builtin(BuiltinType::Text);
    let mixed = types.intern(TyData::Result {
        ok: int,
        error: text,
    });
    let mut other = Substitution::default();
    assert!(!match_target(&types, pattern, mixed, &mut other));
}

fn pairs_of(index: &ImplIndex, types: &TyInterner) -> Vec<(DefId, DefId)> {
    let found = index.overlapping_pairs(types);
    let mut pairs = vec![];
    let mut current = &found;
    while let Chain::Link(link) = current {
        pairs.push(link.item);
        current = &link.rest;
    }
    pairs.reverse();
    pairs
}

#[test]
fn a_bound_parameter_that_meets_an_open_one_overlaps() {
    let mut types = TyInterner::new();
    let int = types.builtin(BuiltinType::Int);
    let text = types.builtin(BuiltinType::Text);
    let t = types.intern(TyData::Param(GenericParamId(0)));
    let u = types.intern(TyData::Param(GenericParamId(1)));
    let twice = types.intern(TyData::Result { ok: t, error: t });
    let half_open = types.intern(TyData::Result { ok: u, error: int });
    let closed = types.intern(TyData::Result {
        ok: text,
        error: int,
    });
    let option_u = types.intern(TyData::Option(u));
    let nested = types.intern(TyData::Result {
        ok: option_u,
        error: int,
    });
    let u_and_int = types.intern(TyData::Result { ok: u, error: int });
    let text_and_u = types.intern(TyData::Result { ok: text, error: u });
    let crossed = types.intern(TyData::Result {
        ok: u_and_int,
        error: text_and_u,
    });
    let within = types.intern(TyData::Result {
        ok: u,
        error: option_u,
    });
    let u_twice = types.intern(TyData::Result { ok: u, error: u });
    let option_t = types.intern(TyData::Option(t));
    let t_within = types.intern(TyData::Result {
        ok: t,
        error: option_t,
    });
    for (left, right, overlap) in [
        (twice, half_open, true),
        (twice, crossed, false),
        (crossed, twice, false),
        (twice, within, false),
        (t_within, u_twice, true),
        (crossed, crossed, true),
        (half_open, twice, true),
        (twice, closed, false),
        (closed, twice, false),
        (twice, nested, false),
        (half_open, nested, true),
        (half_open, closed, true),
    ] {
        let mut index = ImplIndex::default();
        index.insert(plain_header(10, 1, left));
        index.insert(plain_header(11, 1, right));
        index.finish();
        let expected = if overlap {
            vec![(DefId(10), DefId(11))]
        } else {
            vec![]
        };
        assert_eq!(pairs_of(&index, &types), expected);
    }
    let both = types.intern(TyData::Result {
        ok: int,
        error: int,
    });
    for head in [twice, half_open] {
        assert!(match_target(&types, head, both, &mut Substitution::default()));
    }
}

#[test]
fn a_match_keeps_earlier_bindings_and_binds_only_its_parameters() {
    let mut types = TyInterner::new();
    let int = types.builtin(BuiltinType::Int);
    let text = types.builtin(BuiltinType::Text);
    let t = types.intern(TyData::Param(GenericParamId(0)));
    let u = types.intern(TyData::Param(GenericParamId(1)));
    let pattern = types.intern(TyData::Result { ok: t, error: u });
    let option_u = types.intern(TyData::Option(u));
    let actual = types.intern(TyData::Result {
        ok: int,
        error: option_u,
    });
    let mut substitution = Substitution::default();
    substitution.insert(GenericParamId(0), int);
    substitution.insert(GenericParamId(7), text);
    assert!(match_target(&types, pattern, actual, &mut substitution));
    assert_eq!(substitution.get(GenericParamId(0)), Some(int));
    assert_eq!(substitution.get(GenericParamId(1)), Some(option_u));
    assert_eq!(substitution.get(GenericParamId(7)), Some(text));
    assert_eq!(substitution.get(GenericParamId(8)), None);
    assert_eq!(types.substitute(pattern, &substitution), actual);

    let mut taken = Substitution::default();
    taken.insert(GenericParamId(0), text);
    assert!(!match_target(&types, pattern, actual, &mut taken));
    assert_eq!(taken.get(GenericParamId(0)), Some(text));
    assert_eq!(taken.get(GenericParamId(1)), None);
}

#[test]
fn a_unified_pattern_is_the_actual_type() {
    let mut types = TyInterner::new();
    let int = types.builtin(BuiltinType::Int);
    let t = types.intern(TyData::Param(GenericParamId(0)));
    let u = types.intern(TyData::Param(GenericParamId(1)));
    let task_t = types.intern(TyData::Task(t));
    let pattern = types.intern(TyData::Tuple(list(vec![task_t, u])));
    let task_int = types.intern(TyData::Task(int));
    let list_t = types.intern(TyData::List(t));
    let actual = types.intern(TyData::Tuple(list(vec![task_int, list_t])));
    let mut substitution = Substitution::default();
    assert!(unify_type(&types, pattern, actual, &mut substitution));
    assert_eq!(substitution.get(GenericParamId(0)), Some(int));
    assert_eq!(substitution.get(GenericParamId(1)), Some(list_t));
    assert_eq!(types.substitute(pattern, &substitution), actual);

    let error = types.error();
    let broken = types.intern(TyData::Tuple(list(vec![error, list_t])));
    let mut other = Substitution::default();
    assert!(unify_type(&types, pattern, broken, &mut other));
    assert_eq!(other.get(GenericParamId(0)), None);
    assert_ne!(types.substitute(pattern, &other), broken);
}

#[test]
fn without_conditions_the_matching_heads_decide() {
    let mut types = TyInterner::new();
    let int = types.builtin(BuiltinType::Int);
    let text = types.builtin(BuiltinType::Text);
    let t = types.intern(TyData::Param(GenericParamId(0)));
    let option_t = types.intern(TyData::Option(t));
    let option_int = types.intern(TyData::Option(int));
    let option_text = types.intern(TyData::Option(text));
    let list_t = types.intern(TyData::List(t));
    let mut generic = plain_header(12, 1, option_t);
    generic.associated_types = list(vec![AssociatedTypeBinding {
        associated_type: DefId(7),
        ty: list_t,
    }]);
    let mut index = ImplIndex::default();
    index.insert(plain_header(13, 1, option_int));
    index.insert(generic);
    index.insert(plain_header(10, 1, int));
    index.finish();
    let goal = |self_ty: TyId| Goal {
        self_ty,
        concept: instance(1),
    };
    for _ in 0..2 {
        let mut solver = ConformanceSolver::new(&index, &mut types);
        assert!(matches!(
            solver.solve(&goal(text), &ParamEnv::default()),
            Err(SolveFailure::Missing)
        ));
        match solver.solve(&goal(option_int), &ParamEnv::default()) {
            Err(SolveFailure::Ambiguous(definitions)) => {
                assert_eq!(definitions.to_vec(), [DefId(12), DefId(13)]);
            }
            _ => panic!("two heads match"),
        }
        match solver.solve(&goal(option_text), &ParamEnv::default()) {
            Ok(selected) => {
                assert!(matches!(
                    selected.source,
                    WitnessSource::Implementation(DefId(12))
                ));
                assert_eq!(selected.substitution.get(GenericParamId(0)), Some(text));
                let bound = selected.associated_types.to_vec()[0].ty;
                assert!(matches!(types.data(bound), TyData::List(element) if *element == text));
            }
            Err(_) => panic!("one head matches"),
        }
    }
}

#[test]
fn heads_without_parameters_overlap_only_with_themselves() {
    let mut types = TyInterner::new();
    let int = types.builtin(BuiltinType::Int);
    let text = types.builtin(BuiltinType::Text);
    let t = types.intern(TyData::Param(GenericParamId(0)));
    let list_t = types.intern(TyData::List(t));
    let boxed = nominal(&mut types, 2, vec![int, list_t]);
    let option = types.intern(TyData::Option(boxed));
    let item = types.intern(TyData::Projection {
        self_ty: t,
        concept: DefId(1),
        associated_type: DefId(3),
    });
    let fixed = [int, text, list_t, boxed, option];
    for left in fixed {
        for right in fixed {
            assert_eq!(heads_may_unify(&types, left, right), left == right);
        }
        for open in [t, item] {
            assert!(heads_may_unify(&types, left, open));
            assert!(heads_may_unify(&types, open, left));
        }
    }
    assert!(heads_may_unify(&types, t, item));
}

#[test]
fn types_that_unified_unify_again() {
    let mut types = TyInterner::new();
    let int = types.builtin(BuiltinType::Int);
    let t = types.intern(TyData::Param(GenericParamId(0)));
    let pattern = nominal(&mut types, 2, vec![t, t]);
    let actual = nominal(&mut types, 2, vec![int, int]);
    let mut substitution = Substitution::default();
    assert!(unify_type(&types, pattern, actual, &mut substitution));
    let before = substitution.clone();
    assert!(unify_type(&types, pattern, actual, &mut substitution));
    assert!(substitution.same(&before));
    assert_eq!(substitution.get(GenericParamId(0)), Some(int));
}

#[test]
fn a_parameter_without_a_type_is_one_of_those_that_occur() {
    let mut types = TyInterner::new();
    let int = types.builtin(BuiltinType::Int);
    let t = types.intern(TyData::Param(GenericParamId(4)));
    let u = types.intern(TyData::Param(GenericParamId(2)));
    let task = types.intern(TyData::Task(u));
    let view = types.intern(TyData::View {
        mutability: Mutability::ReadOnly,
        target: t,
    });
    let item = types.intern(TyData::Projection {
        self_ty: task,
        concept: DefId(1),
        associated_type: DefId(3),
    });
    let ty = types.intern(TyData::Tuple(list(vec![view, item, int])));
    let found = type_parameters_in(&types, ty);
    let mut ids = vec![];
    let mut current = &found;
    while let Chain::Link(link) = current {
        ids.push(link.item);
        current = &link.rest;
    }
    ids.reverse();
    assert_eq!(ids, [2, 4]);
    let mut substitution = Substitution::default();
    assert!(contains_unbound_param(&types, ty, &substitution));
    substitution.insert(GenericParamId(4), int);
    assert!(contains_unbound_param(&types, ty, &substitution));
    substitution.insert(GenericParamId(2), int);
    assert!(!contains_unbound_param(&types, ty, &substitution));
}

#[test]
fn parts_of_parts_are_parts() {
    let mut types = TyInterner::new();
    let int = types.builtin(BuiltinType::Int);
    let option = types.intern(TyData::Option(int));
    let boxed = nominal(&mut types, 2, vec![option]);
    let tuple = types.intern(TyData::Tuple(list(vec![boxed, int])));
    let list_of = types.intern(TyData::List(int));
    let chain = [int, option, boxed, tuple];
    for (i, part) in chain.iter().enumerate() {
        for (j, whole) in chain.iter().enumerate() {
            assert_eq!(is_strict_structural_subterm(&types, *part, *whole), i < j);
        }
        assert!(!is_strict_structural_subterm(&types, *part, list_of));
    }
}
