use cq_workloads::dataset::{
    decode_csv, decode_result_rows, CsvProblem, DatasetError, SchemaError, encode_csv, encode_result_rows, input_file_name, relation_cardinality,
    validate_materialized_result, validate_relation_name, Dataset, RelationData,
};
use cq_workloads::manifest::{decode_manifest, encode_manifest, parse_number_field};
use cq_workloads::model::{Atom, CqModule, RelationDecl};
use cq_workloads::{GenerationConfig, Scale, Scenario, Suite};

fn decl(name: &str, arity: usize) -> RelationDecl {
    RelationDecl { name: name.to_string(), arity }
}

fn atom(relation: &str, variables: &[&str]) -> Atom {
    Atom {
        relation: relation.to_string(),
        variables: variables.iter().map(|v| v.to_string()).collect(),
    }
}

/// `answer(x, z) :- r#type(x), Edge(x, z).`
fn module() -> CqModule {
    CqModule {
        inputs: vec![decl("type", 1), decl("Edge", 2)],
        head: atom("answer", &["x", "z"]),
        body: vec![atom("type", &["x"]), atom("Edge", &["x", "z"])],
    }
}

fn config(scenario: Scenario, scale: Scale, seed: u64) -> GenerationConfig {
    GenerationConfig { scenario, scale, seed }
}

fn dataset() -> Dataset {
    Dataset::new(
        &module(),
        Suite::Classic,
        "round-trip".to_string(),
        config(Scenario::Coverage, Scale::Tiny, 17),
        vec![
            RelationData::new("type".to_string(), 1, vec![vec![2], vec![1], vec![1]]).unwrap(),
            RelationData::new("Edge".to_string(), 2, vec![vec![1, -3], vec![2, 4]]).unwrap(),
        ],
    )
    .unwrap()
}

/// Writes the dataset as the directory would hold it and reads it back.
fn round_trip(module: &CqModule, dataset: &Dataset) -> (Vec<(String, String)>, Dataset) {
    let mut files = vec![("manifest.txt".to_string(), encode_manifest(&dataset.manifest))];
    for (index, relation) in dataset.relations.iter().enumerate() {
        files.push((input_file_name(index), encode_csv(relation)));
    }
    let manifest = decode_manifest(&"manifest.txt".to_string(), &files[0].1).unwrap();
    let mut relations = Vec::new();
    for (index, entry) in manifest.relations.iter().enumerate() {
        let (name, text) = &files[index + 1];
        relations.push(decode_csv(name, &entry.name, entry.arity, text).unwrap());
    }
    let read = Dataset::assemble(module, manifest, relations).unwrap();
    (files, read)
}

#[test]
fn directory_round_trip_preserves_raw_order_duplicates_and_manifest_counts() {
    let expected = dataset();
    let (files, actual) = round_trip(&module(), &expected);

    assert_eq!(actual, expected);
    assert_eq!(actual.manifest.relations[0].raw_rows, 3);
    assert_eq!(actual.manifest.relations[0].distinct_rows, 2);
    assert_eq!(files[1], ("input0.csv".to_string(), "2\n1\n1\n".to_string()));
    assert_eq!(files[2].0, "input1.csv");
    assert!(files.iter().all(|(name, _)| name != "type.csv"));
}

#[test]
fn positional_files_preserve_case_distinct_relation_names() {
    let module = CqModule {
        inputs: vec![decl("R", 1), decl("r", 1)],
        head: atom("q", &["x"]),
        body: vec![atom("R", &["x"]), atom("r", &["x"])],
    };
    let expected = Dataset::new(
        &module,
        Suite::Classic,
        "case-names".to_string(),
        config(Scenario::Coverage, Scale::Tiny, 3),
        vec![
            RelationData::new("R".to_string(), 1, vec![vec![1]]).unwrap(),
            RelationData::new("r".to_string(), 1, vec![vec![2]]).unwrap(),
        ],
    )
    .unwrap();
    let (files, actual) = round_trip(&module, &expected);

    assert_eq!(files[1], ("input0.csv".to_string(), "1\n".to_string()));
    assert_eq!(files[2], ("input1.csv".to_string(), "2\n".to_string()));
    assert_eq!(actual, expected);
}

#[test]
fn schema_and_manifest_drift_are_rejected() {
    let mut wrong_order = dataset();
    wrong_order.relations.swap(0, 1);
    assert!(wrong_order.validate(&module()).is_err());

    let mut stale = dataset();
    stale.relations[0].rows.push(vec![9]);
    assert!(stale.validate(&module()).is_err());

    let dataset = dataset();
    let name = "round-trip".to_string();
    assert!(dataset.validate_provenance(Suite::Classic, &name, config(Scenario::Coverage, Scale::Tiny, 17)).is_ok());
    assert!(dataset.validate_provenance(Suite::Retail, &name, config(Scenario::Coverage, Scale::Tiny, 17)).is_err());
    assert!(dataset
        .validate_provenance(Suite::Classic, &"other".to_string(), config(Scenario::Coverage, Scale::Tiny, 17))
        .is_err());
    assert!(dataset.validate_provenance(Suite::Classic, &name, config(Scenario::EmptyInput, Scale::Tiny, 17)).is_err());
    assert!(dataset.validate_provenance(Suite::Classic, &name, config(Scenario::Coverage, Scale::Medium, 17)).is_err());
    assert!(dataset.validate_provenance(Suite::Classic, &name, config(Scenario::Coverage, Scale::Tiny, 18)).is_err());

    let mut mislabeled_empty = dataset.clone();
    mislabeled_empty.manifest.scenario = Scenario::EmptyInput;
    assert!(mislabeled_empty.validate(&module()).is_err());

    let mut mislabeled_no_match = dataset;
    mislabeled_no_match.relations[0].rows.clear();
    mislabeled_no_match.manifest.relations[0] = relation_cardinality(&mislabeled_no_match.relations[0]);
    mislabeled_no_match.manifest.scenario = Scenario::NoMatch;
    assert!(mislabeled_no_match.validate(&module()).is_err());
}

#[test]
fn csv_reader_rejects_noncanonical_or_wrong_width_rows() {
    let path = "R.csv".to_string();
    let name = "R".to_string();
    assert!(decode_csv(&path, &name, 1, "01\n").is_err());
    assert!(decode_csv(&path, &name, 2, "1\n").is_err());
    assert!(decode_csv(&path, &name, 1, "1").is_err());
    assert!(decode_csv(&path, &name, 1, "\n").is_err());
    assert!(parse_number_field(&path, 1, "arity", &"01".chars().collect(), usize::MAX as u64).is_err());
    assert!(validate_relation_name(&"../R".to_string()).is_err());
}

#[test]
fn result_csv_preserves_and_enforces_materialized_set_order() {
    let path = "golden.csv".to_string();
    let rows = vec![vec![-1, 9], vec![2, 3]];
    let text = encode_result_rows(&rows, 2).unwrap();
    assert_eq!(decode_result_rows(&path, 2, &text).unwrap(), rows);

    assert!(encode_result_rows(&vec![vec![2], vec![1]], 1).is_err());
    assert!(encode_result_rows(&vec![vec![1], vec![1]], 1).is_err());
}

#[test]
fn csv_text_is_one_line_per_row_in_raw_order() {
    let relation = RelationData::new("E".to_string(), 2, vec![vec![3, -4], vec![0, 2147483647], vec![3, -4]]).unwrap();
    assert_eq!(encode_csv(&relation), "3,-4\n0,2147483647\n3,-4\n");
    let read = decode_csv(&"E.csv".to_string(), &"E".to_string(), 2, "3,-4\n0,2147483647\n3,-4\n").unwrap();
    assert_eq!(read, relation);
}

#[test]
fn csv_reader_rejects_out_of_range_and_signed_zero_values() {
    let path = "R.csv".to_string();
    let name = "R".to_string();
    assert!(decode_csv(&path, &name, 1, "2147483648\n").is_err());
    assert!(decode_csv(&path, &name, 1, "-0\n").is_err());
    assert!(decode_csv(&path, &name, 1, "+1\n").is_err());
    assert_eq!(decode_csv(&path, &name, 1, "-2147483648\n").unwrap().rows, vec![vec![i32::MIN]]);
    assert_eq!(decode_csv(&path, &name, 1, "").unwrap().rows, Vec::<Vec<i32>>::new());
}

#[test]
fn manifest_text_round_trips() {
    let dataset = dataset();
    let text = encode_manifest(&dataset.manifest);
    assert!(text.ends_with('\n'));
    let read = decode_manifest(&"manifest.txt".to_string(), &text).unwrap();
    assert_eq!(read, dataset.manifest);
    assert!(decode_manifest(&"manifest.txt".to_string(), text.trim_end()).is_err());
}

#[test]
fn relation_counts_are_raw_and_distinct() {
    let relation = RelationData::new("R".to_string(), 1, vec![vec![2], vec![1], vec![1]]).unwrap();
    assert_eq!(relation.raw_cardinality(), 3);
    assert_eq!(relation.distinct_cardinality(), 2);
    let counts = relation_cardinality(&relation);
    assert_eq!((counts.raw_rows, counts.distinct_rows, counts.arity), (3, 2, 1));
    assert!(RelationData::new("R".to_string(), 2, vec![vec![1]]).is_err());
}

#[test]
fn materialized_results_are_strictly_increasing() {
    assert!(validate_materialized_result(&vec![vec![1, 2], vec![1, 3], vec![2, 0]]).is_ok());
    assert!(validate_materialized_result(&vec![vec![1, 3], vec![1, 2]]).is_err());
    assert!(validate_materialized_result(&vec![vec![1], vec![1, 0]]).is_ok());
}

#[test]
fn relations_are_found_by_name() {
    let dataset = dataset();
    assert_eq!(dataset.relation(&"Edge".to_string()).unwrap().arity, 2);
    assert!(dataset.relation(&"edge".to_string()).is_none());
    assert_eq!(input_file_name(12), "input12.csv");
}

#[test]
fn dataset_errors_read_as_sentences() {
    let unordered = SchemaError::UnorderedResult { position: 2, first: vec![3, -1], second: vec![2] };
    assert_eq!(
        unordered.message(),
        "materialized result rows 2 and 3 are not in strict lexicographic order: [3, -1], [2]"
    );
    let csv = DatasetError::Csv {
        path: "data/input0.csv".to_string(),
        line: 4,
        problem: CsvProblem::ColumnCount { found: 3, expected: 2 },
    };
    assert_eq!(csv.message(), "data/input0.csv:4: invalid relation CSV: row has 3 columns; expected 2");
    let error = decode_csv(&"R.csv".to_string(), &"R".to_string(), 1, "01\n").unwrap_err();
    assert_eq!(error.message(), "R.csv:1: invalid relation CSV: column 1 is not in canonical decimal form: `01`");
    let error = validate_relation_name(&"../R".to_string()).unwrap_err();
    assert_eq!(error.message(), "relation name `../R` is not a safe dataset filename");
}

#[test]
fn csv_refusals_name_the_line_and_the_problem() {
    let path = "R.csv".to_string();
    let name = "R".to_string();
    match decode_csv(&path, &name, 1, "01\n") {
        Err(DatasetError::Csv { line: 1, problem: CsvProblem::NotCanonical { column: 1, field }, .. }) => assert_eq!(field, "01"),
        other => panic!("unexpected {:?}", other),
    }
    match decode_csv(&path, &name, 2, "1\n") {
        Err(DatasetError::Csv { line: 1, problem: CsvProblem::ColumnCount { found: 1, expected: 2 }, .. }) => {},
        other => panic!("unexpected {:?}", other),
    }
    assert!(matches!(
        decode_csv(&path, &name, 1, "1"),
        Err(DatasetError::Csv { problem: CsvProblem::MissingFinalNewline, .. })
    ));
    assert!(matches!(
        decode_csv(&path, &name, 1, "\n"),
        Err(DatasetError::Csv { line: 1, problem: CsvProblem::BlankRow, .. })
    ));
    match decode_csv(&path, &name, 2, "1,2\n3,x\n") {
        Err(DatasetError::Csv { line: 2, problem: CsvProblem::NotAnI32 { column: 2, field }, .. }) => assert_eq!(field, "x"),
        other => panic!("unexpected {:?}", other),
    }
    assert!(matches!(decode_csv(&path, &name, 0, ""), Err(DatasetError::Schema(_))));
    assert!(matches!(RelationData::new("R".to_string(), 2, vec![vec![1]]), Err(DatasetError::Schema(_))));
}

#[test]
fn manifest_with_an_extra_entry_reports_the_entry_count() {
    let nine = "mini-linq-dataset\t2\nsuite\tclassic\ncase\tc\nscenario\tcoverage\nscale\ttiny\nseed\t17\ngenerator-version\t2\nrelations\t1\nrelation\tR\t1\t3\t2\n";
    let ten = format!("{}relation\tS\t1\t1\t1\n", nine);
    let path = "manifest.txt".to_string();
    let manifest = decode_manifest(&path, nine).unwrap();
    assert_eq!(manifest.relations.len(), 1);
    assert_eq!(manifest.seed, 17);
    match decode_manifest(&path, &ten) {
        Err(error) => {
            assert!(matches!(
                error,
                DatasetError::Manifest { line: 11, problem: cq_workloads::dataset::ManifestProblem::EntryCountMismatch { declared: 1, found: 2 }, .. }
            ));
            assert_eq!(error.message(), "manifest.txt:11: invalid dataset manifest: manifest declares 1 relation entries but contains 2");
        },
        Ok(_) => panic!("an extra entry was accepted"),
    }
}

#[test]
fn input_file_names_stay_distinct_without_case() {
    let names: Vec<String> = (0..12).map(input_file_name).collect();
    for name in &names {
        assert_eq!(&name.to_ascii_lowercase(), name);
    }
    for (i, first) in names.iter().enumerate() {
        for second in &names[i + 1..] {
            assert!(!first.eq_ignore_ascii_case(second));
        }
    }
}
