use std::collections::BTreeSet;

use cq_workloads::catalog::{all, classic, named, retail};
use cq_workloads::model::CqModule;
use cq_workloads::sql::translate;
use cq_workloads::{case, seed_for, QueryCase, Scale, Scenario, Suite};

const CLASSIC_NAMES: [&str; 10] = [
    "intersection",
    "cartesian-product",
    "oriented-chain",
    "claw",
    "fact-star",
    "triangle",
    "cycle-4",
    "spade",
    "barbell",
    "loomis-whitney-4",
];

const RETAIL_NAMES: [&str; 10] = [
    "retail_h03",
    "retail_h05",
    "retail_h07",
    "retail_h08",
    "retail_h09",
    "retail_h21_positive",
    "retail_d19",
    "retail_d27",
    "retail_d72_inner",
    "retail_d85",
];

/// The checks on a catalog query that this crate can make: every body atom
/// names a declared input with its declared arity, the head is bound by the
/// body, and the SQL oracle text can be written.
fn check_module(case: &QueryCase, module: &CqModule) {
    assert!(!module.body.is_empty(), "case `{}` has an empty body", case.name);
    for atom in &module.body {
        let declared = module
            .inputs
            .iter()
            .find(|input| input.name == atom.relation)
            .unwrap_or_else(|| panic!("case `{}` uses undeclared `{}`", case.name, atom.relation));
        assert_eq!(declared.arity, atom.variables.len(), "case `{}` misuses `{}`", case.name, atom.relation);
    }
    for variable in &module.head.variables {
        assert!(
            module.body.iter().any(|atom| atom.variables.contains(variable)),
            "case `{}` leaves head variable `{}` unbound",
            case.name,
            variable
        );
    }
    translate(module).unwrap_or_else(|error| panic!("case `{}` did not translate: {error:?}", case.name));
}

#[test]
fn classic_catalog_has_exactly_ten_cases_in_stable_order() {
    let cases = classic();
    assert_eq!(cases.len(), 10);
    assert_eq!(cases.iter().map(|case| case.name).collect::<Vec<_>>(), CLASSIC_NAMES);
    assert!(cases.iter().all(|case| case.suite == Suite::Classic));
}

#[test]
fn classic_catalog_names_are_unique_and_metadata_is_present() {
    let cases = classic();
    let names = cases.iter().map(|case| case.name).collect::<BTreeSet<_>>();

    assert_eq!(names.len(), cases.len());
    assert!(cases.iter().all(|case| !case.purpose.is_empty() && !case.scope_note.is_empty()));
}

#[test]
fn classic_catalog_sources_parse_and_satisfy_the_cq_contract() {
    for case in classic() {
        let module = case.module();
        check_module(&case, &module);
    }
}

#[test]
fn retail_catalog_has_exactly_ten_explicitly_scoped_cases() {
    let cases = retail();
    assert_eq!(cases.len(), 10);
    assert_eq!(cases.iter().map(|case| case.name).collect::<Vec<_>>(), RETAIL_NAMES);
    assert!(cases.iter().all(|case| case.suite == Suite::Retail));
    assert!(cases.iter().all(|case| {
        case.scope_note.contains("Inspired only") && case.scope_note.contains("not a compliant TPC query or result")
    }));
}

#[test]
fn retail_catalog_sources_parse_and_satisfy_the_cq_contract() {
    let mut names = BTreeSet::new();
    for case in retail() {
        assert!(names.insert(case.name), "duplicate case `{}`", case.name);
        let module = case.module();
        check_module(&case, &module);
    }
}

#[test]
fn all_lists_classic_then_retail() {
    let names = all().iter().map(|case| case.name).collect::<Vec<_>>();
    let expected = CLASSIC_NAMES.iter().chain(RETAIL_NAMES.iter()).copied().collect::<Vec<_>>();
    assert_eq!(names, expected);
}

#[test]
fn suites_are_found_by_name() {
    assert_eq!(named("classic").unwrap().len(), 10);
    assert_eq!(named("retail").unwrap()[0].name, "retail_h03");
    assert!(named("Classic").is_none());
}

#[test]
fn cases_are_found_by_command_line_name() {
    let triangle = case("triangle").unwrap();
    assert_eq!(triangle.name, "triangle");
    assert_eq!(triangle.suite, Suite::Classic);
    assert_eq!(case("retail_d85").unwrap().suite, Suite::Retail);
    assert!(case("Triangle").is_none());
    assert!(case("").is_none());
}

#[test]
fn seeds_are_the_fnv1a_hash_of_the_case_name() {
    assert_eq!(seed_for(&case("triangle").unwrap()), 0xdc74_4565_62ae_7805);
    assert_eq!(seed_for(&case("intersection").unwrap()), 0x7742_4c3a_e43f_2328);
}

#[test]
fn names_of_suites_scales_and_scenarios_are_stable() {
    assert_eq!(Suite::Classic.as_str(), "classic");
    assert_eq!(Suite::Retail.as_str(), "retail");
    assert_eq!(Scale::Tiny.as_str(), "tiny");
    assert_eq!(Scale::Medium.as_str(), "medium");
    assert_eq!(Scale::Large.as_str(), "large");
    assert_eq!(
        Scenario::all().map(|scenario| scenario.as_str()),
        ["coverage", "empty-input", "no-match"]
    );
}

#[test]
fn the_triangle_case_is_the_three_cycle() {
    let module = case("triangle").unwrap().module();
    assert_eq!(module.inputs.len(), 3);
    assert_eq!(module.body.len(), 3);
    assert_eq!(module.head.variables, vec!["x".to_string(), "y".to_string(), "z".to_string()]);
}
