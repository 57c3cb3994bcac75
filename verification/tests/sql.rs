use cq_workloads::model::{Atom, CqModule, RelationDecl};
use cq_workloads::sql::{raw_table_ddl, raw_table_name, translate, SqlError};

fn decl(name: &str, arity: usize) -> RelationDecl {
    RelationDecl { name: name.to_string(), arity }
}

fn atom(relation: &str, variables: &[&str]) -> Atom {
    Atom {
        relation: relation.to_string(),
        variables: variables.iter().map(|v| v.to_string()).collect(),
    }
}

#[test]
fn triangle_sql_deduplicates_inputs_and_orders_the_distinct_head() {
    let module = CqModule {
        inputs: vec![decl("R", 2), decl("S", 2), decl("T", 2)],
        head: atom("q", &["x", "y", "z"]),
        body: vec![atom("R", &["x", "y"]), atom("S", &["y", "z"]), atom("T", &["z", "x"])],
    };
    let sql = translate(&module).unwrap();

    assert_eq!(sql.matches("SELECT DISTINCT").count(), 4);
    assert!(sql.contains("FROM \"mini-linq/raw/0\""));
    assert!(sql.contains("\"a1\".\"c0\" = \"a0\".\"c1\""));
    assert!(sql.contains("\"a2\".\"c1\" = \"a0\".\"c0\""));
    assert!(sql.ends_with("ORDER BY 1, 2, 3;\n"));
}

#[test]
fn self_joins_use_occurrence_aliases_and_normalize_raw_identifiers() {
    // `r#type` is held by its symbol name `type`.
    let module = CqModule {
        inputs: vec![decl("type", 2)],
        head: atom("q", &["x", "z"]),
        body: vec![atom("type", &["x", "y"]), atom("type", &["y", "z"])],
    };
    let sql = translate(&module).unwrap();

    assert_eq!(sql.matches("\"mini-linq/input/0\" AS \"a").count(), 2);
    assert!(!sql.contains("r#type"));
    assert!(sql.contains("\"a1\".\"c0\" = \"a0\".\"c1\""));
}

#[test]
fn disconnected_atoms_remain_an_explicit_cross_product() {
    let module = CqModule {
        inputs: vec![decl("A", 1), decl("B", 2)],
        head: atom("q", &["x", "y", "z"]),
        body: vec![atom("A", &["x"]), atom("B", &["y", "z"])],
    };
    let sql = translate(&module).unwrap();

    assert!(sql.contains("FROM \"mini-linq/input/0\" AS \"a0\"\nCROSS JOIN \"mini-linq/input/1\" AS \"a1\""));
    assert!(!sql.contains("\nWHERE "));
}

#[test]
fn generated_cte_names_do_not_case_fold_caller_relation_names() {
    let module = CqModule {
        inputs: vec![decl("R", 1), decl("r", 1)],
        head: atom("q", &["x"]),
        body: vec![atom("R", &["x"]), atom("r", &["x"])],
    };
    let sql = translate(&module).unwrap();

    assert!(sql.contains("\"mini-linq/input/0\" AS ("));
    assert!(sql.contains("\"mini-linq/input/1\" AS ("));
    assert!(!sql.contains("\"R\" AS ("));
    assert!(!sql.contains("\"r\" AS ("));
}

#[test]
fn a_repeated_variable_in_one_atom_is_an_equality_on_one_alias() {
    let module = CqModule {
        inputs: vec![decl("E", 2)],
        head: atom("q", &["x"]),
        body: vec![atom("E", &["x", "x"])],
    };
    assert_eq!(
        translate(&module).unwrap(),
        "WITH\n  \"mini-linq/input/0\" AS (\n    SELECT DISTINCT \"c0\", \"c1\"\n    FROM \"mini-linq/raw/0\"\n  )\nSELECT DISTINCT\n  \"a0\".\"c0\" AS \"x\"\nFROM \"mini-linq/input/0\" AS \"a0\"\nWHERE \"a0\".\"c1\" = \"a0\".\"c0\"\nORDER BY 1;\n"
    );
}

#[test]
fn identifiers_with_quotes_are_escaped_by_doubling() {
    let module = CqModule {
        inputs: vec![decl("E", 1)],
        head: atom("q", &["a\"b"]),
        body: vec![atom("E", &["a\"b"])],
    };
    assert!(translate(&module).unwrap().contains("\"a0\".\"c0\" AS \"a\"\"b\""));
}

#[test]
fn an_unbound_head_variable_is_reported_first() {
    let module = CqModule {
        inputs: vec![decl("E", 1)],
        head: atom("q", &["x", "y"]),
        body: vec![atom("Missing", &["x"])],
    };
    assert!(matches!(translate(&module), Err(SqlError::MissingHeadBinding(name)) if name == "y"));
}

#[test]
fn an_undeclared_relation_is_reported() {
    let module = CqModule {
        inputs: vec![decl("E", 1)],
        head: atom("q", &["x"]),
        body: vec![atom("E", &["x"]), atom("F", &["x"])],
    };
    assert!(matches!(translate(&module), Err(SqlError::UnknownRelation(name)) if name == "F"));
}

#[test]
fn raw_tables_are_numbered_by_input_position() {
    assert_eq!(raw_table_name(0), "mini-linq/raw/0");
    assert_eq!(raw_table_name(17), "mini-linq/raw/17");
}

#[test]
fn sql_errors_read_as_sentences() {
    assert_eq!(SqlError::MissingHeadBinding("x".to_string()).message(), "result variable `x` has no SQL binding");
    assert_eq!(SqlError::UnknownRelation("R".to_string()).message(), "body relation `R` has no SQL input");
}

#[test]
fn raw_tables_declare_one_integer_column_per_declared_column() {
    assert_eq!(raw_table_ddl(0, 2), "CREATE TABLE \"mini-linq/raw/0\" (c0 INTEGER NOT NULL, c1 INTEGER NOT NULL);");
    assert_eq!(raw_table_ddl(3, 1), "CREATE TABLE \"mini-linq/raw/3\" (c0 INTEGER NOT NULL);");
}
