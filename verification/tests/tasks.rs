use cq_workloads::catalog::all;
use cq_workloads::tasks::{
    check_or_skip_scenario, compare_rows, data_directory, execution_timeout_seconds, generation_config, golden_path,
    parse_output, parse_scale, sql_path, CommandOptions, OutputError, ScenarioSelection, Selection, TaskError,
};
use cq_workloads::{case, Scale, Scenario};

fn arguments(values: &[&str]) -> Vec<String> {
    values.iter().map(|value| (*value).to_owned()).collect()
}

#[test]
fn command_options_default_to_coverage() {
    let options = CommandOptions::parse(Vec::new(), false).unwrap();

    assert!(matches!(options.selection, Selection::All));
    assert_eq!(options.scale, Scale::Tiny);
    assert_eq!(options.scenarios.values(), vec![Scenario::Coverage]);
    assert!(!options.write);
}

#[test]
fn scenario_all_expands_in_stable_order() {
    let options = CommandOptions::parse(arguments(&["classic", "medium", "--scenario", "all"]), false).unwrap();

    assert!(matches!(options.selection, Selection::Suite("classic")));
    assert_eq!(options.scale, Scale::Medium);
    assert_eq!(options.scenarios.values(), Scenario::all().to_vec());
}

#[test]
fn write_is_golden_only_and_surplus_arguments_are_rejected() {
    assert!(CommandOptions::parse(arguments(&["--write"]), false).is_err());
    assert!(CommandOptions::parse(arguments(&["--write"]), true).unwrap().write);
    assert!(CommandOptions::parse(arguments(&["all", "tiny", "extra"]), false).is_err());
}

#[test]
fn artifact_paths_include_scenario_but_sql_does_not() {
    let case = all()[0];

    assert!(data_directory(&case, Scenario::NoMatch, Scale::Large)
        .ends_with("workloads/data/classic/intersection/no-match/large"));
    assert!(golden_path(&case, Scenario::EmptyInput, Scale::Tiny)
        .ends_with("workloads/golden/classic/intersection/empty-input/tiny.csv"));
    assert!(sql_path(&case).ends_with("workloads/sql/classic/intersection.sql"));
}

#[test]
fn an_explicit_inapplicable_scenario_is_an_error_but_all_may_skip_it() {
    let case = case("cartesian-product").unwrap();

    assert!(check_or_skip_scenario(&case, Scenario::NoMatch, false).is_err());
    assert!(!check_or_skip_scenario(&case, Scenario::NoMatch, true).unwrap());
}

#[test]
fn applicable_scenarios_run_whatever_the_selection() {
    let case = case("triangle").unwrap();
    for scenario in Scenario::all() {
        assert!(check_or_skip_scenario(&case, scenario, false).unwrap());
        assert!(check_or_skip_scenario(&case, scenario, true).unwrap());
    }
}

#[test]
fn options_are_refused_with_their_reason() {
    assert!(matches!(
        CommandOptions::parse(arguments(&["--scenario", "all", "--scenario", "coverage"]), false),
        Err(TaskError::RepeatedScenario)
    ));
    assert!(matches!(CommandOptions::parse(arguments(&["--scenario"]), false), Err(TaskError::MissingScenarioValue)));
    assert!(matches!(
        CommandOptions::parse(arguments(&["--scenario", "everything"]), false),
        Err(TaskError::UnknownScenario(value)) if value == "everything"
    ));
    assert!(matches!(
        CommandOptions::parse(arguments(&["--write", "--write"]), true),
        Err(TaskError::RepeatedWrite)
    ));
    assert!(matches!(
        CommandOptions::parse(arguments(&["-v"]), true),
        Err(TaskError::UnknownOption(option)) if option == "-v"
    ));
    assert!(matches!(
        CommandOptions::parse(arguments(&["all", "tiny", "extra"]), false),
        Err(TaskError::UnexpectedArgument(value)) if value == "extra"
    ));
    assert!(matches!(
        CommandOptions::parse(arguments(&["nothing"]), false),
        Err(TaskError::UnknownSelection(value)) if value == "nothing"
    ));
    assert!(matches!(
        CommandOptions::parse(arguments(&["all", "huge"]), false),
        Err(TaskError::UnknownScale(value)) if value == "huge"
    ));
}

#[test]
fn a_case_selection_names_one_case() {
    let options = CommandOptions::parse(arguments(&["--scenario", "no-match", "triangle", "large", "--write"]), true).unwrap();
    assert!(matches!(options.selection, Selection::Case(case) if case.name == "triangle"));
    assert_eq!(options.scale, Scale::Large);
    assert_eq!(options.scenarios, ScenarioSelection::One(Scenario::NoMatch));
    assert!(options.write);
    assert_eq!(options.selection.cases().len(), 1);
}

#[test]
fn selections_expand_to_catalog_cases() {
    assert_eq!(Selection::parse("all").unwrap().cases().len(), 20);
    assert_eq!(Selection::parse("retail").unwrap().cases()[0].name, "retail_h03");
    assert_eq!(Selection::Suite("other").cases().len(), 0);
    assert!(ScenarioSelection::All.allows_inapplicable());
    assert!(!ScenarioSelection::One(Scenario::Coverage).allows_inapplicable());
    assert_eq!(parse_scale("medium").unwrap(), Scale::Medium);
}

#[test]
fn rows_are_compared_in_order_and_the_first_mismatch_is_named() {
    assert_eq!(compare_rows(&vec![vec![1, 2], vec![3]], &vec![vec![1, 2], vec![3]]), Ok(()));
    assert_eq!(compare_rows(&vec![vec![1, 2], vec![3]], &vec![vec![1, 2], vec![4]]), Err(1));
    assert_eq!(compare_rows(&vec![vec![1]], &vec![vec![1], vec![2]]), Err(1));
    assert_eq!(compare_rows(&vec![], &vec![vec![1]]), Err(0));
}

#[test]
fn the_generation_config_carries_the_case_seed() {
    let case = case("triangle").unwrap();
    let config = generation_config(&case, Scenario::EmptyInput, Scale::Medium);
    assert_eq!(config.seed, 0xdc74_4565_62ae_7805);
    assert_eq!(config.scenario, Scenario::EmptyInput);
    assert_eq!(config.scale, Scale::Medium);
}

#[test]
fn program_output_is_read_as_str_parse_reads_integers() {
    assert_eq!(parse_output(2, "1,-2\n+3,04\r\n").unwrap(), vec![vec![1, -2], vec![3, 4]]);
    assert_eq!(parse_output(1, "").unwrap(), Vec::<Vec<i32>>::new());
    assert_eq!(parse_output(1, "-2147483648\n2147483647").unwrap(), vec![vec![i32::MIN], vec![i32::MAX]]);
    assert!(matches!(
        parse_output(2, "1,2\n3,x\n"),
        Err(OutputError::NotAnInteger { line: 2, field }) if field == "x"
    ));
    assert!(matches!(
        parse_output(2, "1,2\n3\n"),
        Err(OutputError::ColumnCount { line: 2, found: 1, expected: 2 })
    ));
    assert!(matches!(parse_output(1, "2147483648\n"), Err(OutputError::NotAnInteger { line: 1, .. })));
    assert!(matches!(parse_output(1, "\n"), Err(OutputError::NotAnInteger { line: 1, field }) if field.is_empty()));
}

#[test]
fn program_timeouts_grow_with_scale() {
    assert_eq!(execution_timeout_seconds(Scale::Tiny), 10);
    assert_eq!(execution_timeout_seconds(Scale::Medium), 60);
    assert_eq!(execution_timeout_seconds(Scale::Large), 300);
}

#[test]
fn task_errors_read_as_sentences() {
    let error = CommandOptions::parse(arguments(&["all", "huge"]), false).unwrap_err();
    assert_eq!(error.message(), "unknown scale `huge`; expected tiny, medium, or large");
    let error = CommandOptions::parse(arguments(&["all", "tiny", "--write"]), false).unwrap_err();
    assert_eq!(error.message(), "unknown option `--write`");
    let error = TaskError::ScenarioNotApplicable { scenario: Scenario::NoMatch, case: "claw", reason: "no reason" };
    assert_eq!(
        error.message(),
        "scenario `no-match` is not applicable to `claw`: no reason; use `--scenario all` to skip mathematically unavailable combinations"
    );
}
