use std::collections::{BTreeMap, BTreeSet};

use cq_workloads::analysis::{
    access_patterns, atom_positions, atom_slots, connected_components, existential_variables, membership_occurrences,
    variable_order,
};
use cq_workloads::catalog::{classic, retail};
use cq_workloads::dataset::Dataset;
use cq_workloads::generate::{
    check_module_scenario, generate, generate_module, prefix_guarantees_key, GenerateError, Limits, NoiseColumn, SplitMix64,
};
use cq_workloads::model::{Atom, CqModule, RelationDecl};
use cq_workloads::{GenerationConfig, QueryCase, Scale, Scenario, Suite};

fn config(scenario: Scenario, scale: Scale, seed: u64) -> GenerationConfig {
    GenerationConfig { scenario, scale, seed }
}

fn decl(name: &str, arity: usize) -> RelationDecl {
    RelationDecl { name: name.to_string(), arity }
}

fn atom(relation: &str, variables: &[&str]) -> Atom {
    Atom {
        relation: relation.to_string(),
        variables: variables.iter().map(|v| v.to_string()).collect(),
    }
}

fn all_cases() -> Vec<QueryCase> {
    classic().into_iter().chain(retail()).collect()
}

type Assignment = BTreeMap<String, i32>;

/// The satisfying assignments of the body and the distinct head tuples they
/// project to.
struct Evaluation {
    assignments: BTreeSet<Assignment>,
    output: BTreeSet<Vec<i32>>,
}

/// The distinct head tuples of the query over the dataset's relations.
fn evaluate(module: &CqModule, dataset: &Dataset) -> BTreeSet<Vec<i32>> {
    evaluate_without(module, dataset, None)
}

/// The distinct head tuples when body occurrence `omitted` is left out.
fn evaluate_without(module: &CqModule, dataset: &Dataset, omitted: Option<usize>) -> BTreeSet<Vec<i32>> {
    evaluate_with_fault(module, dataset, omitted, None).output
}

fn relation_sets(dataset: &Dataset) -> BTreeMap<String, BTreeSet<Vec<i32>>> {
    dataset
        .relations
        .iter()
        .map(|relation| (relation.name.clone(), relation.rows.iter().cloned().collect::<BTreeSet<_>>()))
        .collect()
}

/// Evaluation with one occurrence left out, or with one column of one
/// occurrence no longer compared against its earlier binding.
fn evaluate_with_fault(
    module: &CqModule,
    dataset: &Dataset,
    omitted: Option<usize>,
    ignored_equality: Option<(usize, usize)>,
) -> Evaluation {
    let relations = relation_sets(dataset);
    let mut assignments = BTreeSet::new();
    extend(&module.body, &relations, omitted, ignored_equality, 0, &Assignment::new(), &mut assignments);
    let output = assignments
        .iter()
        .map(|assignment| module.head.variables.iter().map(|variable| assignment[variable]).collect())
        .collect();
    Evaluation { assignments, output }
}

fn extend(
    atoms: &[Atom],
    relations: &BTreeMap<String, BTreeSet<Vec<i32>>>,
    omitted: Option<usize>,
    ignored_equality: Option<(usize, usize)>,
    occurrence: usize,
    assignment: &Assignment,
    results: &mut BTreeSet<Assignment>,
) {
    if occurrence == atoms.len() {
        results.insert(assignment.clone());
        return;
    }
    if Some(occurrence) == omitted {
        extend(atoms, relations, omitted, ignored_equality, occurrence + 1, assignment, results);
        return;
    }
    let atom = &atoms[occurrence];
    for row in &relations[&atom.relation] {
        let mut extended = assignment.clone();
        let compatible = atom.variables.iter().zip(row).enumerate().all(|(column, (variable, value))| match extended.get(variable) {
            Some(bound) => ignored_equality == Some((occurrence, column)) || bound == value,
            None => {
                extended.insert(variable.clone(), *value);
                true
            }
        });
        if compatible {
            extend(atoms, relations, omitted, ignored_equality, occurrence + 1, &extended, results);
        }
    }
}

/// For each occurrence, the numbers of candidate rows it met while the
/// body was evaluated left to right.
fn candidate_counts(module: &CqModule, dataset: &Dataset) -> Vec<BTreeSet<usize>> {
    let relations = relation_sets(dataset);
    let mut counts = vec![BTreeSet::new(); module.body.len()];
    trace_occurrence(&module.body, &relations, 0, &Assignment::new(), &mut counts);
    counts
}

fn trace_occurrence(
    atoms: &[Atom],
    relations: &BTreeMap<String, BTreeSet<Vec<i32>>>,
    occurrence: usize,
    assignment: &Assignment,
    counts: &mut [BTreeSet<usize>],
) {
    if occurrence == atoms.len() {
        return;
    }
    let atom = &atoms[occurrence];
    let candidates = relations[&atom.relation]
        .iter()
        .filter(|row| {
            atom.variables
                .iter()
                .zip(row.iter())
                .all(|(variable, value)| assignment.get(variable).is_none_or(|bound| bound == value))
        })
        .cloned()
        .collect::<Vec<_>>();
    counts[occurrence].insert(candidates.len());
    for row in candidates {
        let mut extended = assignment.clone();
        for (variable, value) in atom.variables.iter().zip(row) {
            extended.entry(variable.clone()).or_insert(value);
        }
        trace_occurrence(atoms, relations, occurrence + 1, &extended, counts);
    }
}

fn project_row(atom: &Atom, assignment: &Assignment) -> Vec<i32> {
    atom.variables.iter().map(|variable| assignment[variable]).collect()
}

/// The rows of the accessed occurrence in successful proofs, grouped by
/// their key columns.
fn successful_rows_by_key(
    module: &CqModule,
    evaluation: &Evaluation,
    occurrence: usize,
    key_columns: &[usize],
) -> BTreeMap<Vec<i32>, BTreeSet<Vec<i32>>> {
    let atom = &module.body[occurrence];
    let mut by_key = BTreeMap::<Vec<i32>, BTreeSet<Vec<i32>>>::new();
    for assignment in &evaluation.assignments {
        let row = project_row(atom, assignment);
        let key = key_columns.iter().map(|&column| row[column]).collect();
        by_key.entry(key).or_default().insert(row);
    }
    by_key
}

#[test]
fn splitmix64_sequence_is_fixed() {
    let mut random = SplitMix64::new(0);
    assert_eq!(random.next_u64(), 0xe220_a839_7b1d_cdaf);
    assert_eq!(random.next_u64(), 0x6e78_9e6a_a1b9_65f4);
    assert_eq!(random.next_u64(), 0x06c4_5d18_8009_454f);
}

#[test]
fn every_classic_tiny_dataset_is_reproducible_and_schema_valid() {
    for case in classic() {
        let first = generate(&case, config(Scenario::Coverage, Scale::Tiny, 7)).unwrap();
        let second = generate(&case, config(Scenario::Coverage, Scale::Tiny, 7)).unwrap();
        let module = case.module();

        assert_eq!(first, second, "{} was not reproducible", case.name);
        first.validate(&module).unwrap();
        let target = Limits::for_shape(Scale::Tiny, connected_components(&module.body)).distinct_rows;
        assert!(
            first.manifest.relations.iter().all(|relation| relation.distinct_rows == target),
            "{} did not preserve the exact distinct-row scale target",
            case.name,
        );
    }
}

#[test]
fn every_catalog_membership_has_a_result_changing_anti_witness() {
    for case in all_cases() {
        let module = case.module();
        let dataset = generate(&case, config(Scenario::Coverage, Scale::Tiny, 7)).unwrap();
        let target = Limits::for_shape(Scale::Tiny, connected_components(&module.body)).distinct_rows;
        assert!(
            dataset.manifest.relations.iter().all(|relation| relation.distinct_rows == target),
            "{} did not preserve the exact distinct-row target",
            case.name,
        );
        assert_memberships_are_observable(case.name, &module, &dataset);
    }
}

/// Leaving out any full-key membership admits a head tuple that the whole
/// query does not.
fn assert_memberships_are_observable(label: &str, module: &CqModule, dataset: &Dataset) {
    let full = evaluate(module, dataset);
    assert!(!full.is_empty(), "{label} coverage scenario has no result");
    for membership in membership_occurrences(&module.body, &access_patterns(&module.body)) {
        let without = evaluate_without(module, dataset, Some(membership));
        assert!(
            without.difference(&full).next().is_some(),
            "{label} occurrence {} does not make its planted head tuple observable",
            membership + 1
        );
    }
}

#[test]
fn coverage_scenario_makes_every_advertised_edge_observable() {
    for case in all_cases() {
        let module = case.module();
        let accesses = access_patterns(&module.body);
        let variables = variable_order(&module.body);
        let dataset = generate(&case, config(Scenario::Coverage, Scale::Tiny, 31))
            .unwrap_or_else(|error| panic!("{} coverage generation failed: {error:?}", case.name));
        let evaluation = evaluate_with_fault(&module, &dataset, None, None);
        assert!(!evaluation.output.is_empty(), "{} coverage scenario has no successful result", case.name);

        // Every declared catalog input participates in a successful proof,
        // and at least one such row is duplicated in the raw CSV stream.
        for relation in &dataset.relations {
            let multiplicities = relation.rows.iter().fold(BTreeMap::<Vec<i32>, usize>::new(), |mut counts, row| {
                *counts.entry(row.clone()).or_default() += 1;
                counts
            });
            let active_duplicate = module.body.iter().filter(|atom| atom.relation == relation.name).any(|atom| {
                evaluation.assignments.iter().any(|assignment| {
                    let row = project_row(atom, assignment);
                    multiplicities.get(&row).is_some_and(|count| *count >= 2)
                })
            });
            assert!(active_duplicate, "{} relation {} has no duplicated row in a successful proof", case.name, relation.name);
        }

        let existentials = existential_variables(&module.head, &variables);
        if !existentials.is_empty() {
            let projected_multiplicity =
                evaluation.assignments.iter().fold(BTreeMap::<Vec<i32>, usize>::new(), |mut counts, assignment| {
                    let head = module.head.variables.iter().map(|variable| assignment[variable]).collect::<Vec<_>>();
                    *counts.entry(head).or_default() += 1;
                    counts
                });
            assert!(
                projected_multiplicity.values().any(|count| *count >= 2),
                "{} has existential variables but no two proofs project to one head",
                case.name
            );
        }

        let counts = candidate_counts(&module, &dataset);
        let positions = atom_positions(&module.body, &module.inputs).unwrap();
        let slots = atom_slots(&module.body, &variables);
        let synthetic = (0..variables.len()).map(|position| position as i32 + 1).collect::<Vec<_>>();
        for access in accesses.iter().filter(|access| access.is_partial(&module.body)) {
            let guaranteed = prefix_guarantees_key(
                access.occurrence,
                &access.key_columns,
                &positions,
                &slots,
                module.inputs.len(),
                &synthetic,
            );
            if !guaranteed {
                assert!(
                    counts[access.occurrence].contains(&0),
                    "{} occurrence {} never reaches a missing partial key",
                    case.name,
                    access.occurrence + 1
                );
            }
            assert!(
                counts[access.occurrence].iter().any(|candidate_count| *candidate_count >= 2),
                "{} occurrence {} never reaches a multi-candidate bucket",
                case.name,
                access.occurrence + 1
            );
            assert!(
                successful_rows_by_key(&module, &evaluation, access.occurrence, &access.key_columns)
                    .values()
                    .any(|rows| rows.len() >= 2),
                "{} occurrence {} has no key with two surviving complements",
                case.name,
                access.occurrence + 1
            );
        }

        for access in accesses.iter().filter(|access| access.key_columns.len() >= 2) {
            for &column in &access.key_columns {
                let faulty = evaluate_with_fault(&module, &dataset, None, Some((access.occurrence, column)));
                assert!(
                    faulty.output.difference(&evaluation.output).next().is_some(),
                    "{} occurrence {} key column {} has no result-observable decoy",
                    case.name,
                    access.occurrence + 1,
                    column
                );
            }
        }

        let mut reversed = dataset.clone();
        for relation in &mut reversed.relations {
            relation.rows.reverse();
        }
        assert_eq!(
            evaluate_with_fault(&module, &reversed, None, None).output,
            evaluation.output,
            "{} depends on raw input order",
            case.name
        );
    }
}

#[test]
fn empty_and_nonempty_no_match_are_separate_scenarios() {
    let mut no_match_not_applicable = BTreeSet::new();
    for case in all_cases() {
        let module = case.module();
        let empty = generate(&case, config(Scenario::EmptyInput, Scale::Tiny, 41)).unwrap();
        assert_eq!(empty.manifest.scenario, Scenario::EmptyInput);
        assert_eq!(
            empty.relations.iter().filter(|relation| relation.rows.is_empty()).count(),
            1,
            "{} empty-input scenario must empty exactly one relation",
            case.name
        );
        assert!(evaluate(&module, &empty).is_empty(), "{} empty-input scenario unexpectedly has results", case.name);

        match generate(&case, config(Scenario::NoMatch, Scale::Tiny, 43)) {
            Ok(no_match) => {
                assert_eq!(no_match.manifest.scenario, Scenario::NoMatch);
                assert!(
                    no_match.relations.iter().all(|relation| !relation.rows.is_empty()),
                    "{} no-match scenario contains an empty input",
                    case.name
                );
                assert!(
                    evaluate(&module, &no_match).is_empty(),
                    "{} no-match scenario unexpectedly has results",
                    case.name
                );
            }
            Err(GenerateError::ScenarioNotApplicable { scenario: Scenario::NoMatch, .. }) => {
                no_match_not_applicable.insert(case.name);
            }
            Err(error) => panic!("{} no-match generation failed: {error:?}", case.name),
        }
    }
    assert_eq!(no_match_not_applicable, BTreeSet::from(["cartesian-product"]));
}

#[test]
fn exact_duplicate_membership_is_reported_as_indistinguishable() {
    let module = CqModule {
        inputs: vec![decl("R", 1)],
        head: atom("duplicate", &["x"]),
        body: vec![atom("R", &["x"]), atom("R", &["x"])],
    };
    let error = generate_module(
        &module,
        Suite::Classic,
        "duplicate-membership".to_string(),
        config(Scenario::Coverage, Scale::Tiny, 23),
    )
    .unwrap_err();

    assert!(matches!(
        error,
        GenerateError::IndistinguishableMembership { occurrence: 2, relation } if relation == "R"
    ));
}

#[test]
fn role_playing_self_join_does_not_refill_the_omitted_tuple() {
    let module = CqModule {
        inputs: vec![decl("Edge", 2)],
        head: atom("reverse_edge", &["x", "y"]),
        body: vec![atom("Edge", &["x", "y"]), atom("Edge", &["y", "x"])],
    };
    let dataset = generate_module(
        &module,
        Suite::Classic,
        "reverse-edge".to_string(),
        config(Scenario::Coverage, Scale::Tiny, 19),
    )
    .unwrap();
    dataset.validate(&module).unwrap();
    assert_eq!(membership_occurrences(&module.body, &access_patterns(&module.body)), vec![1]);
    assert_memberships_are_observable("reverse-edge", &module, &dataset);
}

#[test]
fn seed_changes_generated_rows_without_changing_the_schema() {
    let case = classic().into_iter().find(|case| case.name == "triangle").unwrap();
    let first = generate(&case, config(Scenario::Coverage, Scale::Tiny, 1)).unwrap();
    let second = generate(&case, config(Scenario::Coverage, Scale::Tiny, 2)).unwrap();

    assert_ne!(first.relations, second.relations);
    assert_eq!(
        first.relations.iter().map(|relation| (&relation.name, relation.arity)).collect::<Vec<_>>(),
        second.relations.iter().map(|relation| (&relation.name, relation.arity)).collect::<Vec<_>>()
    );
}

#[test]
fn disconnected_medium_inputs_are_capped_before_the_cartesian_product() {
    let limits = Limits::for_shape(Scale::Medium, 2);
    assert_eq!(limits.distinct_rows, 316);
    assert!(limits.distinct_rows.pow(2) <= 100_000);
    assert!((limits.distinct_rows + 1).pow(2) > 100_000);

    let case = classic().into_iter().find(|case| case.name == "cartesian-product").unwrap();
    let dataset = generate(&case, config(Scenario::Coverage, Scale::Medium, 3)).unwrap();
    assert!(dataset.manifest.relations.iter().all(|relation| relation.distinct_rows == 316));
}

#[test]
fn scale_targets_match_the_documented_ranges() {
    assert_eq!(Limits::for_shape(Scale::Tiny, 1).distinct_rows, 96);
    assert_eq!(Limits::for_shape(Scale::Medium, 1).distinct_rows, 25_000);
    assert_eq!(Limits::for_shape(Scale::Large, 1).distinct_rows, 1_000_000);
}

#[test]
fn tiny_disconnected_shapes_take_the_integer_root_of_the_product_cap() {
    assert_eq!(Limits::for_shape(Scale::Tiny, 2).distinct_rows, 64);
    assert_eq!(Limits::for_shape(Scale::Tiny, 3).distinct_rows, 16);
    assert_eq!(Limits::for_shape(Scale::Large, 3).distinct_rows, 100);
}

#[test]
fn generation_records_its_provenance() {
    let case = classic().into_iter().find(|case| case.name == "claw").unwrap();
    let dataset = generate(&case, config(Scenario::NoMatch, Scale::Tiny, 5)).unwrap();
    assert_eq!(dataset.manifest.suite, Suite::Classic);
    assert_eq!(dataset.manifest.case, "claw");
    assert_eq!(dataset.manifest.seed, 5);
    assert_eq!(dataset.manifest.generator_version, cq_workloads::GENERATOR_VERSION);
    assert!(dataset.validate_provenance(Suite::Classic, &"claw".to_string(), config(Scenario::NoMatch, Scale::Tiny, 5)).is_ok());
}

#[test]
fn a_query_over_an_undeclared_relation_is_refused() {
    let module = CqModule {
        inputs: vec![decl("R", 1)],
        head: atom("q", &["x"]),
        body: vec![atom("S", &["x"])],
    };
    let error = generate_module(&module, Suite::Classic, "unknown".to_string(), config(Scenario::NoMatch, Scale::Tiny, 1))
        .unwrap_err();
    assert!(matches!(error, GenerateError::UnknownRelation(name) if name == "S"));
}

#[test]
fn coverage_data_holds_a_raw_duplicate_in_every_input_the_body_reads() {
    for case in all_cases() {
        let module = case.module();
        let dataset = generate(&case, config(Scenario::Coverage, Scale::Tiny, 11)).unwrap();
        for atom in &module.body {
            let position = module.inputs.iter().position(|input| input.name == atom.relation).unwrap();
            let counts = &dataset.manifest.relations[position];
            assert!(
                counts.raw_rows > counts.distinct_rows,
                "{} input {} has no raw duplicate",
                case.name,
                atom.relation
            );
        }
    }
}

#[test]
fn generation_errors_read_as_sentences() {
    assert_eq!(
        GenerateError::TooManyColumns(5000).message(),
        "5000 declared columns exceed the generator's disjoint i32 noise domains"
    );
    assert_eq!(
        GenerateError::IndistinguishableMembership { occurrence: 2, relation: "R".to_string() }.message(),
        "body occurrence 2 of `R` is an exact duplicate, so no dataset can make deleting that membership observable"
    );
    let module = CqModule {
        inputs: vec![decl("R", 1)],
        head: atom("answer", &["x"]),
        body: vec![atom("S", &["x"])],
    };
    let error = generate_module(&module, Suite::Classic, "q".to_string(), config(Scenario::Coverage, Scale::Tiny, 1)).unwrap_err();
    assert_eq!(error.message(), "body uses undeclared relation `S`");
}

#[test]
fn splitmix_state_after_k_draws_is_seed_plus_k_gammas() {
    let gamma: u64 = 0x9e37_79b9_7f4a_7c15;
    for seed in [0u64, 7, u64::MAX - 3] {
        let mut drawn = SplitMix64::new(seed);
        for k in 0..20u64 {
            let mut restarted = SplitMix64::new(seed.wrapping_add(k.wrapping_mul(gamma)));
            assert_eq!(drawn.next_u64(), restarted.next_u64(), "draw {} from seed {}", k + 1, seed);
        }
    }
}

#[test]
fn coverage_data_holds_the_witness_drawn_from_the_seed() {
    let module = CqModule {
        inputs: vec![decl("R", 2), decl("S", 2)],
        head: atom("answer", &["x", "z"]),
        body: vec![atom("R", &["x", "y"]), atom("S", &["y", "z"])],
    };
    for seed in [3u64, 41, 977] {
        let dataset = generate_module(&module, Suite::Classic, "chain".to_string(), config(Scenario::Coverage, Scale::Tiny, seed)).unwrap();
        let limits = Limits::for_shape(Scale::Tiny, connected_components(&module.body));
        let base = 10_000_000 + (SplitMix64::new(seed).next_u64() % 10_000_000) as i64;
        let stride = limits.planted_witnesses as i64 + 1;
        let witness = |i: i64| (base + i * stride) as i32;
        assert!(dataset.relations[0].rows.contains(&vec![witness(0), witness(1)]));
        assert!(dataset.relations[1].rows.contains(&vec![witness(1), witness(2)]));
    }
}

#[test]
fn no_match_data_is_generated_for_a_small_admitted_query() {
    let module = CqModule {
        inputs: vec![decl("R", 1), decl("S", 1)],
        head: atom("answer", &["x"]),
        body: vec![atom("R", &["x"]), atom("S", &["x"])],
    };
    assert!(check_module_scenario(&module, Scenario::NoMatch).is_ok());
    let dataset = generate_module(&module, Suite::Classic, "meet".to_string(), config(Scenario::NoMatch, Scale::Tiny, 5)).unwrap();
    dataset.validate(&module).unwrap();
    assert!(dataset.relations.iter().all(|relation| !relation.rows.is_empty()));
    assert!(evaluate(&module, &dataset).is_empty());
}

#[test]
fn generation_refuses_a_scenario_with_the_error_of_the_check() {
    let module = CqModule {
        inputs: vec![decl("R", 1), decl("S", 1)],
        head: atom("answer", &["x"]),
        body: vec![atom("R", &["x"]), atom("S", &["x"]), atom("S", &["x"])],
    };
    let checked = check_module_scenario(&module, Scenario::EmptyInput).unwrap_err();
    let generated = generate_module(&module, Suite::Classic, "q".to_string(), config(Scenario::EmptyInput, Scale::Tiny, 9)).unwrap_err();
    assert!(matches!(&checked, GenerateError::IndistinguishableMembership { occurrence: 2, relation } if relation == "S"));
    assert!(matches!(&generated, GenerateError::IndistinguishableMembership { occurrence: 2, relation } if relation == "S"));
    let open = CqModule {
        inputs: vec![decl("R", 2)],
        head: atom("answer", &["x", "y"]),
        body: vec![atom("R", &["x", "y"])],
    };
    let checked = check_module_scenario(&open, Scenario::NoMatch).unwrap_err();
    let generated = generate_module(&open, Suite::Classic, "q".to_string(), config(Scenario::NoMatch, Scale::Tiny, 9)).unwrap_err();
    assert_eq!(checked.message(), generated.message());
    assert!(matches!(generated, GenerateError::ScenarioNotApplicable { scenario: Scenario::NoMatch, .. }));
}

#[test]
fn noise_namespaces_past_the_negative_range_are_refused() {
    let mut rng = SplitMix64::new(1);
    assert!(matches!(NoiseColumn::new(5000, &mut rng), Err(GenerateError::TooManyColumns(5001))));
    assert!(matches!(NoiseColumn::new(2048, &mut rng), Err(GenerateError::TooManyColumns(2049))));
    assert!(NoiseColumn::new(2047, &mut rng).is_ok());
}

#[test]
fn coverage_data_is_generated_for_a_product_of_independent_scans() {
    let module = CqModule {
        inputs: vec![decl("R", 1), decl("S", 2)],
        head: atom("answer", &["x", "y", "z"]),
        body: vec![atom("R", &["x"]), atom("S", &["y", "z"])],
    };
    for scale in [Scale::Tiny, Scale::Medium] {
        let dataset = generate_module(&module, Suite::Classic, "product".to_string(), config(Scenario::Coverage, scale, 3)).unwrap();
        dataset.validate(&module).unwrap();
        assert!(!evaluate(&module, &dataset).is_empty());
    }
}

#[test]
fn coverage_data_is_generated_for_one_column_memberships() {
    let module = CqModule {
        inputs: vec![decl("R", 1), decl("S", 1), decl("T", 2)],
        head: atom("answer", &["x", "y", "z"]),
        body: vec![atom("R", &["x"]), atom("S", &["x"]), atom("T", &["y", "z"])],
    };
    let dataset = generate_module(&module, Suite::Classic, "semijoin".to_string(), config(Scenario::Coverage, Scale::Tiny, 13)).unwrap();
    dataset.validate(&module).unwrap();
    assert_memberships_are_observable("semijoin", &module, &dataset);
    let case = classic().into_iter().find(|case| case.name == "intersection").unwrap();
    assert!(generate(&case, config(Scenario::Coverage, Scale::Tiny, 29)).is_ok());
}

#[test]
fn coverage_data_is_generated_when_the_head_drops_a_variable() {
    let module = CqModule {
        inputs: vec![decl("R", 1), decl("S", 1)],
        head: atom("answer", &["x"]),
        body: vec![atom("R", &["x"]), atom("S", &["y"])],
    };
    let dataset = generate_module(&module, Suite::Classic, "drop".to_string(), config(Scenario::Coverage, Scale::Tiny, 17)).unwrap();
    dataset.validate(&module).unwrap();
    assert!(!evaluate(&module, &dataset).is_empty());
}

#[test]
fn empty_input_data_empties_only_the_last_atom_input() {
    let module = CqModule {
        inputs: vec![decl("R", 1), decl("S", 1)],
        head: atom("answer", &["x"]),
        body: vec![atom("R", &["x"]), atom("S", &["x"])],
    };
    let dataset = generate_module(&module, Suite::Classic, "meet".to_string(), config(Scenario::EmptyInput, Scale::Tiny, 21)).unwrap();
    dataset.validate(&module).unwrap();
    assert!(!dataset.relations[0].rows.is_empty());
    assert!(dataset.relations[1].rows.is_empty());
    assert!(evaluate(&module, &dataset).is_empty());
}

#[test]
fn coverage_data_is_generated_for_a_chain_of_one_column_lookups() {
    let module = CqModule {
        inputs: vec![decl("R", 2), decl("S", 2)],
        head: atom("answer", &["x"]),
        body: vec![atom("R", &["x", "y"]), atom("S", &["y", "z"])],
    };
    for seed in [1u64, 8, 64] {
        let dataset = generate_module(&module, Suite::Classic, "chain".to_string(), config(Scenario::Coverage, Scale::Tiny, seed)).unwrap();
        dataset.validate(&module).unwrap();
        assert!(!evaluate(&module, &dataset).is_empty());
        let empty = generate_module(&module, Suite::Classic, "chain".to_string(), config(Scenario::EmptyInput, Scale::Tiny, seed)).unwrap();
        assert!(evaluate(&module, &empty).is_empty());
    }
}

#[test]
fn coverage_planting_of_a_one_column_intersection_is_exact() {
    let module = CqModule {
        inputs: vec![decl("A", 1), decl("B", 1)],
        head: atom("answer", &["x"]),
        body: vec![atom("A", &["x"]), atom("B", &["x"])],
    };
    let dataset = generate_module(&module, Suite::Classic, "meet".to_string(), config(Scenario::Coverage, Scale::Tiny, 7)).unwrap();
    dataset.validate(&module).unwrap();
    let base = 10_000_000 + (SplitMix64::new(7).next_u64() % 10_000_000) as i32;
    let a = &dataset.relations[0].rows;
    let b = &dataset.relations[1].rows;
    for value in base..=base + 11 {
        assert!(a.contains(&vec![value]));
        assert!(b.contains(&vec![value]));
    }
    assert!(a.contains(&vec![base + 14]));
    assert!(!b.contains(&vec![base + 14]));
    for rows in [a, b] {
        assert!(rows.iter().filter(|row| **row == vec![base]).count() >= 2);
        let planted: BTreeSet<i32> = rows.iter().map(|row| row[0]).filter(|value| (base..base + 19).contains(value)).collect();
        assert!(planted.iter().all(|value| *value <= base + 11 || *value == base + 14));
    }
    assert!(!evaluate(&module, &dataset).contains(&vec![base + 14]));
}
