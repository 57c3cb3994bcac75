use cq_workloads::case;
use cq_workloads::split::lines_of;
use cq_workloads::explain::{
    artifact_directory, error_report, format_iterator_source, format_wrapped_expression, indent_lines,
    panic_diagnostic, readme, render_cq_stage, render_ir_macro, ExplainError, NestedMacro, Options, Stage,
};

fn owned(values: &[&str]) -> Vec<String> {
    values.iter().map(|value| (*value).to_owned()).collect()
}

#[test]
fn options_require_one_known_shape_and_default_to_final_rust() {
    let options = Options::parse(owned(&["triangle"])).unwrap();
    assert_eq!(options.case, "triangle");
    assert_eq!(options.through, Stage::FinalRust);

    assert!(Options::parse(Vec::new()).is_err());
    assert!(Options::parse(owned(&["triangle", "extra"])).is_err());
    assert!(Options::parse(owned(&["triangle", "--bad"])).is_err());
    assert!(Options::parse(owned(&["triangle", "--through"])).is_err());
    assert!(Options::parse(owned(&["triangle", "--through", "not-a-stage"])).is_err());
}

#[test]
fn unknown_catalog_case_is_rejected_before_creating_artifacts() {
    let options = Options::parse(owned(&["not-a-case"])).unwrap();
    assert!(matches!(options.catalog_case(), Err(ExplainError::UnknownCase(name)) if name == "not-a-case"));
}

#[test]
fn stages_parse_and_name_their_files_in_compiler_order() {
    let names = Stage::all().map(|stage| stage.name());
    assert_eq!(
        names,
        ["cq", "relational-plan", "index-requirements", "rust-access-plan", "iterator-pipeline", "final-rust"]
    );
    for stage in Stage::all() {
        assert_eq!(Stage::parse(stage.name()).unwrap(), stage);
    }
    assert_eq!(Stage::Cq.file_name(), "01-cq.rs");
    assert_eq!(Stage::FinalRust.file_name(), "06-final-rust.rs");
    assert_eq!(Stage::IndexRequirements.description(), "the logical plan plus its exact equality-index requirements");
    assert!(matches!(Stage::parse("final"), Err(ExplainError::UnknownStage(name)) if name == "final"));
    let through = Options::parse(owned(&["--through", "cq", "claw"])).unwrap();
    assert_eq!((through.case.as_str(), through.through), ("claw", Stage::Cq));
    assert!(matches!(
        Options::parse(owned(&["claw", "--through", "cq", "--through", "cq"])),
        Err(ExplainError::RepeatedThrough)
    ));
    assert!(matches!(Options::parse(Vec::new()), Err(ExplainError::MissingCase)));
}

#[test]
fn lines_follow_str_lines() {
    for text in ["", "a", "a\n", "a\r\nb", "\n\nx\r", "one\ntwo\n\nthree"] {
        let expected = text.lines().map(str::to_owned).collect::<Vec<_>>();
        assert_eq!(lines_of(text), expected, "{text:?}");
    }
}

#[test]
fn indentation_skips_empty_lines_and_drops_the_final_newline() {
    assert_eq!(indent_lines("a\n\nb\n", "  "), "  a\n\n  b");
    assert_eq!(indent_lines("", "    "), "");
    assert_eq!(render_ir_macro("mini_linq", "struct Q;\nq(x) :- R(x)."), "::mini_linq::mini_linq! {\n    struct Q;\n    q(x) :- R(x).\n}\n");
}

#[test]
fn short_expressions_stay_on_one_line() {
    assert_eq!(
        format_wrapped_expression("x => if (".to_owned(), "a == b".to_owned(), "),".to_owned()),
        vec!["x => if (a == b),".to_owned()]
    );
    let long = "y".repeat(90);
    assert_eq!(
        format_iterator_source("p(".to_owned(), long.clone(), ")".to_owned()),
        vec!["p(".to_owned(), format!("    {long}"), ")".to_owned()]
    );
    assert_eq!(
        format_wrapped_expression("p(".to_owned(), "a\nb".to_owned(), ")".to_owned()),
        owned(&["p(", "    a", "    b", ")"])
    );
    let exact = "z".repeat(89);
    assert_eq!(format_wrapped_expression("p(".to_owned(), exact.clone(), ")".to_owned()).len(), 1);
}

#[test]
fn reports_name_the_case_edge_and_diagnostic() {
    let report = error_report("triangle", "CQ -> RelationalPlan", "first\n\nsecond");
    assert!(report.starts_with("# MiniLinq compiler trace stopped\n\nCase: `triangle`\n\nFailed edge: `CQ -> RelationalPlan`\n"));
    assert!(report.contains("Diagnostic:\n\n    first\n    \n    second\n\n"));
    assert_eq!(panic_diagnostic(Some("student pass is not implemented")), "compiler panicked: student pass is not implemented");
    assert_eq!(panic_diagnostic(None), "compiler panicked with a non-string payload");
}

#[test]
fn the_trace_guide_marks_requested_stages() {
    let triangle = case("triangle").unwrap();
    let guide = readme(&triangle, Stage::RelationalPlan);
    assert!(guide.starts_with("# MiniLinq compiler trace: `triangle`\n\nGenerated from `workloads/src/queries/classic/triangle.rs` by:\n\n```text\ncargo xtask explain triangle --through relational-plan\n```\n"));
    assert!(guide.contains("| `02-relational-plan.rs` | `relational-plan` | the complete named logical relational-algebra plan | generated on success |\n"));
    assert!(guide.contains("| `03-index-requirements.rs` | `index-requirements` | the logical plan plus its exact equality-index requirements | not requested |"));
    assert!(guide.ends_with("names that edge.\n"));
    assert_eq!(artifact_directory(&triangle), "target/mini-linq-explain/triangle");
    assert_eq!(NestedMacro::Pull.name(), "pull");
    assert_eq!(NestedMacro::IteratorPipeline.name(), "iterator_pipeline");
}

#[test]
fn explain_errors_read_as_sentences() {
    let error = Options::parse(owned(&["triangle", "--through", "bogus"])).unwrap_err();
    assert_eq!(
        error.message(),
        "unknown explain stage `bogus`; expected cq, relational-plan, index-requirements, rust-access-plan, iterator-pipeline, or final-rust"
    );
    assert_eq!(ExplainError::MissingCase.message(), "`cargo xtask explain` requires a catalog case name");
}

#[test]
fn cq_stage_renders_the_catalog_program_inside_its_macro() {
    let intersection = case("intersection").unwrap();
    assert_eq!(
        render_cq_stage(&intersection),
        "::mini_linq::mini_linq! {\n    pub struct UnaryIntersectionProgram;\n    relation Left(c0: i32);\n    relation Right(c0: i32);\n    intersection(x) :-\n        Left(x),\n        Right(x).\n}\n"
    );
    let triangle = case("triangle").unwrap();
    let text = render_cq_stage(&triangle);
    assert!(text.starts_with("::mini_linq::mini_linq! {\n    pub struct CorpusTriangleProgram;\n    relation R(c0: i32, c1: i32);\n"));
    assert!(text.ends_with(".\n}\n"));
}
