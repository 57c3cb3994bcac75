//! Strict row-oriented datasets shared by MiniLinq and the SQL oracle.
//!
//! A dataset holds one headerless integer CSV text per declared input and a
//! small, deterministic manifest. Raw duplicate rows are retained: consumers
//! apply input set semantics after loading.

use vstd::prelude::*;

use crate::model::{CqModule, RelationDecl};
use crate::rows::{lex_lt, rows_view, RowSet};
use crate::split::{join_with, pieces_free_of, pieces_view, split_chars, split_on};
use crate::text::{debug_row, dec_int, dec_nat, push_debug_row, push_str, push_u128, push_u64, Decimal};
use crate::{GenerationConfig, Scale, Scenario, Suite, GENERATOR_VERSION};

verus! {

/// Which manifest token a schema error speaks of.
#[derive(Clone, Copy, Debug, PartialEq, Eq, Structural)]
pub enum TokenContext {
    CaseName,
    RelationName,
}

/// A dataset that does not match its schema, manifest, or scenario.
#[derive(Debug)]
pub enum SchemaError {
    /// The token is empty or holds a tab, newline, carriage return, or NUL.
    UnrepresentableToken { context: TokenContext, value: String },
    /// A relation name holds `/` or `\\`.
    UnsafeRelationName { value: String },
    NonPositiveArity { relation: String },
    /// `row` counts from 1.
    RowArity { relation: String, row: usize, actual: usize, expected: usize },
    GeneratorVersion { actual: u32, expected: u32 },
    RelationCount { actual: usize, declared: usize },
    ManifestEntryCount { actual: usize, declared: usize },
    /// `position` counts from 1.
    DeclarationMismatch {
        position: usize,
        name: String,
        arity: usize,
        expected_name: String,
        expected_arity: usize,
    },
    StaleCardinality {
        relation: String,
        recorded_raw: usize,
        recorded_distinct: usize,
        actual_raw: usize,
        actual_distinct: usize,
    },
    /// Coverage and no-match data must have no empty input.
    EmptyInputsInNonemptyScenario { scenario: Scenario, empty_relations: usize },
    /// Empty-input data must have exactly one empty input.
    EmptyInputCount { empty_relations: usize },
    Provenance {
        actual_suite: Suite,
        actual_case: String,
        actual_scenario: Scenario,
        actual_scale: Scale,
        actual_seed: u64,
        expected_suite: Suite,
        expected_case: String,
        expected_scenario: Scenario,
        expected_scale: Scale,
        expected_seed: u64,
    },
    /// Rows `position` and `position + 1` (counting from 1) are out of order.
    UnorderedResult { position: usize, first: Vec<i32>, second: Vec<i32> },
    UndeclaredCsvFile { file_name: String },
}

/// Why a manifest line was rejected.
#[derive(Debug)]
pub enum ManifestProblem {
    MissingFinalNewline,
    Truncated,
    /// The line must read `key<TAB>value`.
    ExpectedLine { key: String, value: String },
    /// The line must read `key<TAB>` followed by a value.
    ExpectedKeyValue { key: String },
    UnknownSuite { value: String },
    UnknownScenario { value: String },
    UnknownScale { value: String },
    /// `str::parse` rejects the field.
    NotANumber { field: String, value: String },
    /// The field parses but is not written as `to_string` writes it.
    NotCanonical { field: String, value: String },
    EntryCountMismatch { declared: usize, found: usize },
    MalformedRelationEntry,
    DistinctExceedsRaw,
}

/// Why a CSV row was rejected.
#[derive(Debug)]
pub enum CsvProblem {
    MissingFinalNewline,
    BlankRow,
    ColumnCount { found: usize, expected: usize },
    /// `column` counts from 1.
    NotAnI32 { column: usize, field: String },
    NotCanonical { column: usize, field: String },
}

/// Errors in building, checking, or decoding a dataset.
#[derive(Debug)]
pub enum DatasetError {
    Schema(SchemaError),
    Manifest { path: String, line: usize, problem: ManifestProblem },
    Csv { path: String, line: usize, problem: CsvProblem },
}

impl TokenContext {
    /// How a message names the token.
    pub open spec fn label(self) -> Seq<char> {
        match self {
            TokenContext::CaseName => "case name"@,
            TokenContext::RelationName => "relation name"@,
        }
    }
}

impl SchemaError {
    /// The sentence that reports the error.
    pub open spec fn message_text(&self) -> Seq<char> {
        match self {
            SchemaError::UnrepresentableToken { context, value } => context.label() + " `"@ + value@
                + "` cannot be represented in the dataset manifest"@,
            SchemaError::UnsafeRelationName { value } => "relation name `"@ + value@ + "` is not a safe dataset filename"@,
            SchemaError::NonPositiveArity { relation } => "relation `"@ + relation@ + "` must have positive arity"@,
            SchemaError::RowArity { relation, row, actual, expected } => "relation `"@ + relation@ + "` row "@ + dec_nat(*row as nat)
                + " has arity "@ + dec_nat(*actual as nat) + "; expected "@ + dec_nat(*expected as nat),
            SchemaError::GeneratorVersion { actual, expected } => "dataset generator version is "@ + dec_nat(*actual as nat)
                + "; this checkout requires "@ + dec_nat(*expected as nat),
            SchemaError::RelationCount { actual, declared } => "dataset has "@ + dec_nat(*actual as nat) + " relations; query declares "@
                + dec_nat(*declared as nat),
            SchemaError::ManifestEntryCount { actual, declared } => "manifest has "@ + dec_nat(*actual as nat)
                + " relation entries; query declares "@ + dec_nat(*declared as nat),
            SchemaError::DeclarationMismatch { position, name, arity, expected_name, expected_arity } => "relation "@
                + dec_nat(*position as nat) + " is `"@ + name@ + "/"@ + dec_nat(*arity as nat) + "`; query declares `"@ + expected_name@
                + "/"@ + dec_nat(*expected_arity as nat) + "` in that position"@,
            SchemaError::StaleCardinality { relation, recorded_raw, recorded_distinct, actual_raw, actual_distinct } =>
                "manifest cardinality for `"@ + relation@ + "` is stale: recorded raw/distinct "@ + dec_nat(*recorded_raw as nat) + "/"@
                + dec_nat(*recorded_distinct as nat) + ", actual "@ + dec_nat(*actual_raw as nat) + "/"@ + dec_nat(*actual_distinct as nat),
            SchemaError::EmptyInputsInNonemptyScenario { scenario, empty_relations } => scenario.name_spec()
                + " scenario requires every input to be nonempty; found "@ + dec_nat(*empty_relations as nat) + " empty relations"@,
            SchemaError::EmptyInputCount { empty_relations } => "empty-input scenario requires exactly one empty relation; found "@
                + dec_nat(*empty_relations as nat),
            SchemaError::Provenance {
                actual_suite,
                actual_case,
                actual_scenario,
                actual_scale,
                actual_seed,
                expected_suite,
                expected_case,
                expected_scenario,
                expected_scale,
                expected_seed,
            } => "dataset provenance is "@ + actual_suite.name_spec() + "/"@ + actual_case@ + "/"@ + actual_scenario.name_spec() + "/"@
                + actual_scale.name_spec() + "/seed "@ + dec_nat(*actual_seed as nat) + "; expected "@ + expected_suite.name_spec() + "/"@
                + expected_case@ + "/"@ + expected_scenario.name_spec() + "/"@ + expected_scale.name_spec() + "/seed "@
                + dec_nat(*expected_seed as nat),
            SchemaError::UnorderedResult { position, first, second } => "materialized result rows "@ + dec_nat(*position as nat)
                + " and "@ + dec_nat(*position as nat + 1) + " are not in strict lexicographic order: "@ + debug_row(first@) + ", "@
                + debug_row(second@),
            SchemaError::UndeclaredCsvFile { file_name } => "dataset contains undeclared CSV file `"@ + file_name@ + "`"@,
        }
    }

    /// The sentence that reports the error.
    pub fn message(&self) -> (r: String)
        ensures
            r@ == self.message_text(),
    {
        let mut out = String::new();
        match self {
            SchemaError::UnrepresentableToken { context, value } => {
                match context {
                    TokenContext::CaseName => push_str(&mut out, "case name"),
                    TokenContext::RelationName => push_str(&mut out, "relation name"),
                }
                push_str(&mut out, " `");
                push_str(&mut out, value.as_str());
                push_str(&mut out, "` cannot be represented in the dataset manifest");
            },
            SchemaError::UnsafeRelationName { value } => {
                push_str(&mut out, "relation name `");
                push_str(&mut out, value.as_str());
                push_str(&mut out, "` is not a safe dataset filename");
            },
            SchemaError::NonPositiveArity { relation } => {
                push_str(&mut out, "relation `");
                push_str(&mut out, relation.as_str());
                push_str(&mut out, "` must have positive arity");
            },
            SchemaError::RowArity { relation, row, actual, expected } => {
                push_str(&mut out, "relation `");
                push_str(&mut out, relation.as_str());
                push_str(&mut out, "` row ");
                push_u64(&mut out, *row as u64);
                push_str(&mut out, " has arity ");
                push_u64(&mut out, *actual as u64);
                push_str(&mut out, "; expected ");
                push_u64(&mut out, *expected as u64);
            },
            SchemaError::GeneratorVersion { actual, expected } => {
                push_str(&mut out, "dataset generator version is ");
                push_u64(&mut out, *actual as u64);
                push_str(&mut out, "; this checkout requires ");
                push_u64(&mut out, *expected as u64);
            },
            SchemaError::RelationCount { actual, declared } => {
                push_str(&mut out, "dataset has ");
                push_u64(&mut out, *actual as u64);
                push_str(&mut out, " relations; query declares ");
                push_u64(&mut out, *declared as u64);
            },
            SchemaError::ManifestEntryCount { actual, declared } => {
                push_str(&mut out, "manifest has ");
                push_u64(&mut out, *actual as u64);
                push_str(&mut out, " relation entries; query declares ");
                push_u64(&mut out, *declared as u64);
            },
            SchemaError::DeclarationMismatch { position, name, arity, expected_name, expected_arity } => {
                push_str(&mut out, "relation ");
                push_u64(&mut out, *position as u64);
                push_str(&mut out, " is `");
                push_str(&mut out, name.as_str());
                push_str(&mut out, "/");
                push_u64(&mut out, *arity as u64);
                push_str(&mut out, "`; query declares `");
                push_str(&mut out, expected_name.as_str());
                push_str(&mut out, "/");
                push_u64(&mut out, *expected_arity as u64);
                push_str(&mut out, "` in that position");
            },
            SchemaError::StaleCardinality { relation, recorded_raw, recorded_distinct, actual_raw, actual_distinct } => {
                push_str(&mut out, "manifest cardinality for `");
                push_str(&mut out, relation.as_str());
                push_str(&mut out, "` is stale: recorded raw/distinct ");
                push_u64(&mut out, *recorded_raw as u64);
                push_str(&mut out, "/");
                push_u64(&mut out, *recorded_distinct as u64);
                push_str(&mut out, ", actual ");
                push_u64(&mut out, *actual_raw as u64);
                push_str(&mut out, "/");
                push_u64(&mut out, *actual_distinct as u64);
            },
            SchemaError::EmptyInputsInNonemptyScenario { scenario, empty_relations } => {
                push_str(&mut out, scenario.as_str());
                push_str(&mut out, " scenario requires every input to be nonempty; found ");
                push_u64(&mut out, *empty_relations as u64);
                push_str(&mut out, " empty relations");
            },
            SchemaError::EmptyInputCount { empty_relations } => {
                push_str(&mut out, "empty-input scenario requires exactly one empty relation; found ");
                push_u64(&mut out, *empty_relations as u64);
            },
            SchemaError::Provenance {
                actual_suite,
                actual_case,
                actual_scenario,
                actual_scale,
                actual_seed,
                expected_suite,
                expected_case,
                expected_scenario,
                expected_scale,
                expected_seed,
            } => {
                push_str(&mut out, "dataset provenance is ");
                push_str(&mut out, actual_suite.as_str());
                push_str(&mut out, "/");
                push_str(&mut out, actual_case.as_str());
                push_str(&mut out, "/");
                push_str(&mut out, actual_scenario.as_str());
                push_str(&mut out, "/");
                push_str(&mut out, actual_scale.as_str());
                push_str(&mut out, "/seed ");
                push_u64(&mut out, *actual_seed);
                push_str(&mut out, "; expected ");
                push_str(&mut out, expected_suite.as_str());
                push_str(&mut out, "/");
                push_str(&mut out, expected_case.as_str());
                push_str(&mut out, "/");
                push_str(&mut out, expected_scenario.as_str());
                push_str(&mut out, "/");
                push_str(&mut out, expected_scale.as_str());
                push_str(&mut out, "/seed ");
                push_u64(&mut out, *expected_seed);
            },
            SchemaError::UnorderedResult { position, first, second } => {
                push_str(&mut out, "materialized result rows ");
                push_u64(&mut out, *position as u64);
                push_str(&mut out, " and ");
                push_u128(&mut out, *position as u128 + 1);
                push_str(&mut out, " are not in strict lexicographic order: ");
                push_debug_row(&mut out, first);
                push_str(&mut out, ", ");
                push_debug_row(&mut out, second);
            },
            SchemaError::UndeclaredCsvFile { file_name } => {
                push_str(&mut out, "dataset contains undeclared CSV file `");
                push_str(&mut out, file_name.as_str());
                push_str(&mut out, "`");
            },
        }
        assert(out@ =~= self.message_text());
        out
    }
}

impl ManifestProblem {
    /// What the manifest line lacks.
    pub open spec fn message_text(&self) -> Seq<char> {
        match self {
            ManifestProblem::MissingFinalNewline => "manifest must end with a newline"@,
            ManifestProblem::Truncated => "manifest is truncated"@,
            ManifestProblem::ExpectedLine { key, value } => "expected `"@ + key@ + "\t"@ + value@ + "`"@,
            ManifestProblem::ExpectedKeyValue { key } => "expected `"@ + key@ + "<TAB>value`"@,
            ManifestProblem::UnknownSuite { value } => "unknown suite `"@ + value@ + "`"@,
            ManifestProblem::UnknownScenario { value } => "unknown scenario `"@ + value@ + "`"@,
            ManifestProblem::UnknownScale { value } => "unknown scale `"@ + value@ + "`"@,
            ManifestProblem::NotANumber { field, value } => field@ + " is not a canonical nonnegative integer: `"@ + value@ + "`"@,
            ManifestProblem::NotCanonical { field, value } => field@ + " is not in canonical decimal form: `"@ + value@ + "`"@,
            ManifestProblem::EntryCountMismatch { declared, found } => "manifest declares "@ + dec_nat(*declared as nat)
                + " relation entries but contains "@ + dec_nat(*found as nat),
            ManifestProblem::MalformedRelationEntry => "relation entry must be `relation<TAB>name<TAB>arity<TAB>raw<TAB>distinct`"@,
            ManifestProblem::DistinctExceedsRaw => "distinct cardinality exceeds raw cardinality"@,
        }
    }

    /// What the manifest line lacks.
    pub fn message(&self) -> (r: String)
        ensures
            r@ == self.message_text(),
    {
        let mut out = String::new();
        match self {
            ManifestProblem::MissingFinalNewline => push_str(&mut out, "manifest must end with a newline"),
            ManifestProblem::Truncated => push_str(&mut out, "manifest is truncated"),
            ManifestProblem::ExpectedLine { key, value } => {
                push_str(&mut out, "expected `");
                push_str(&mut out, key.as_str());
                push_str(&mut out, "\t");
                push_str(&mut out, value.as_str());
                push_str(&mut out, "`");
            },
            ManifestProblem::ExpectedKeyValue { key } => {
                push_str(&mut out, "expected `");
                push_str(&mut out, key.as_str());
                push_str(&mut out, "<TAB>value`");
            },
            ManifestProblem::UnknownSuite { value } => {
                push_str(&mut out, "unknown suite `");
                push_str(&mut out, value.as_str());
                push_str(&mut out, "`");
            },
            ManifestProblem::UnknownScenario { value } => {
                push_str(&mut out, "unknown scenario `");
                push_str(&mut out, value.as_str());
                push_str(&mut out, "`");
            },
            ManifestProblem::UnknownScale { value } => {
                push_str(&mut out, "unknown scale `");
                push_str(&mut out, value.as_str());
                push_str(&mut out, "`");
            },
            ManifestProblem::NotANumber { field, value } => {
                push_str(&mut out, field.as_str());
                push_str(&mut out, " is not a canonical nonnegative integer: `");
                push_str(&mut out, value.as_str());
                push_str(&mut out, "`");
            },
            ManifestProblem::NotCanonical { field, value } => {
                push_str(&mut out, field.as_str());
                push_str(&mut out, " is not in canonical decimal form: `");
                push_str(&mut out, value.as_str());
                push_str(&mut out, "`");
            },
            ManifestProblem::EntryCountMismatch { declared, found } => {
                push_str(&mut out, "manifest declares ");
                push_u64(&mut out, *declared as u64);
                push_str(&mut out, " relation entries but contains ");
                push_u64(&mut out, *found as u64);
            },
            ManifestProblem::MalformedRelationEntry => push_str(
                &mut out,
                "relation entry must be `relation<TAB>name<TAB>arity<TAB>raw<TAB>distinct`",
            ),
            ManifestProblem::DistinctExceedsRaw => push_str(&mut out, "distinct cardinality exceeds raw cardinality"),
        }
        assert(out@ =~= self.message_text());
        out
    }
}

impl CsvProblem {
    /// What the CSV line lacks.
    pub open spec fn message_text(&self) -> Seq<char> {
        match self {
            CsvProblem::MissingFinalNewline => "nonempty CSV must end with a newline"@,
            CsvProblem::BlankRow => "blank rows are not allowed"@,
            CsvProblem::ColumnCount { found, expected } => "row has "@ + dec_nat(*found as nat) + " columns; expected "@
                + dec_nat(*expected as nat),
            CsvProblem::NotAnI32 { column, field } => "column "@ + dec_nat(*column as nat) + " is not an i32: `"@ + field@ + "`"@,
            CsvProblem::NotCanonical { column, field } => "column "@ + dec_nat(*column as nat) + " is not in canonical decimal form: `"@
                + field@ + "`"@,
        }
    }

    /// What the CSV line lacks.
    pub fn message(&self) -> (r: String)
        ensures
            r@ == self.message_text(),
    {
        let mut out = String::new();
        match self {
            CsvProblem::MissingFinalNewline => push_str(&mut out, "nonempty CSV must end with a newline"),
            CsvProblem::BlankRow => push_str(&mut out, "blank rows are not allowed"),
            CsvProblem::ColumnCount { found, expected } => {
                push_str(&mut out, "row has ");
                push_u64(&mut out, *found as u64);
                push_str(&mut out, " columns; expected ");
                push_u64(&mut out, *expected as u64);
            },
            CsvProblem::NotAnI32 { column, field } => {
                push_str(&mut out, "column ");
                push_u64(&mut out, *column as u64);
                push_str(&mut out, " is not an i32: `");
                push_str(&mut out, field.as_str());
                push_str(&mut out, "`");
            },
            CsvProblem::NotCanonical { column, field } => {
                push_str(&mut out, "column ");
                push_u64(&mut out, *column as u64);
                push_str(&mut out, " is not in canonical decimal form: `");
                push_str(&mut out, field.as_str());
                push_str(&mut out, "`");
            },
        }
        assert(out@ =~= self.message_text());
        out
    }
}

impl DatasetError {
    /// The report of the error: schema errors as their sentence, line errors
    /// prefixed by the file and line they were found on.
    pub open spec fn message_text(&self) -> Seq<char> {
        match self {
            DatasetError::Schema(e) => e.message_text(),
            DatasetError::Manifest { path, line, problem } => path@ + ":"@ + dec_nat(*line as nat) + ": invalid dataset manifest: "@
                + problem.message_text(),
            DatasetError::Csv { path, line, problem } => path@ + ":"@ + dec_nat(*line as nat) + ": invalid relation CSV: "@
                + problem.message_text(),
        }
    }

    /// The report of the error.
    pub fn message(&self) -> (r: String)
        ensures
            r@ == self.message_text(),
    {
        match self {
            DatasetError::Schema(e) => e.message(),
            DatasetError::Manifest { path, line, problem } => {
                let mut out = String::new();
                push_str(&mut out, path.as_str());
                push_str(&mut out, ":");
                push_u64(&mut out, *line as u64);
                push_str(&mut out, ": invalid dataset manifest: ");
                let text = problem.message();
                push_str(&mut out, text.as_str());
                assert(out@ =~= self.message_text());
                out
            },
            DatasetError::Csv { path, line, problem } => {
                let mut out = String::new();
                push_str(&mut out, path.as_str());
                push_str(&mut out, ":");
                push_u64(&mut out, *line as u64);
                push_str(&mut out, ": invalid relation CSV: ");
                let text = problem.message();
                push_str(&mut out, text.as_str());
                assert(out@ =~= self.message_text());
                out
            },
        }
    }
}

/// A token the line-oriented manifest can hold.
pub open spec fn manifest_token_ok(s: Seq<char>) -> bool {
    s.len() > 0 && !s.contains('\t') && !s.contains('\n') && !s.contains('\r') && !s.contains(
        '\0',
    )
}

/// A relation name that is a manifest token and no path.
pub open spec fn relation_name_ok(s: Seq<char>) -> bool {
    manifest_token_ok(s) && !s.contains('/') && !s.contains('\\')
}

fn contains_char(s: &Vec<char>, c: char) -> (b: bool)
    ensures
        b == s@.contains(c),
{
    for i in 0..s.len()
        invariant
            forall|k: int| 0 <= k < i ==> s@[k] != c,
    {
        if s[i] == c {
            return true;
        }
    }
    false
}

fn token_ok(value: &String) -> (b: bool)
    ensures
        b == manifest_token_ok(value@),
{
    let chars = crate::text::chars_of(value.as_str());
    chars.len() > 0 && !contains_char(&chars, '\t') && !contains_char(&chars, '\n')
        && !contains_char(&chars, '\r') && !contains_char(&chars, '\0')
}

/// Rejects a token that the manifest cannot represent.
pub fn validate_manifest_token(context: TokenContext, value: &String) -> (r: Result<
    (),
    DatasetError,
>)
    ensures
        r is Ok <==> manifest_token_ok(value@),
        r matches Err(e) ==> e matches DatasetError::Schema(SchemaError::UnrepresentableToken { context: c, value: v }) && c == context && v@ == value@,
{
    if token_ok(value) {
        Ok(())
    } else {
        Err(DatasetError::Schema(SchemaError::UnrepresentableToken { context, value: value.clone() }))
    }
}

/// Rejects a relation name that is no manifest token or no safe file name.
pub fn validate_relation_name(value: &String) -> (r: Result<(), DatasetError>)
    ensures
        r is Ok <==> relation_name_ok(value@),
        r matches Err(e) ==> (e matches DatasetError::Schema(SchemaError::UnrepresentableToken { context: TokenContext::RelationName, value: v }) && !manifest_token_ok(value@) && v@ == value@)
            || (e matches DatasetError::Schema(SchemaError::UnsafeRelationName { value: v }) && manifest_token_ok(value@) && v@ == value@),
{
    validate_manifest_token(TokenContext::RelationName, value)?;
    let chars = crate::text::chars_of(value.as_str());
    if contains_char(&chars, '/') || contains_char(&chars, '\\') {
        return Err(DatasetError::Schema(SchemaError::UnsafeRelationName { value: value.clone() }));
    }
    Ok(())
}

/// Every row has exactly `width` columns.
pub open spec fn rows_have_width(rows: Seq<Seq<i32>>, width: nat) -> bool {
    forall|i: int| 0 <= i < rows.len() ==> (#[trigger] rows[i]).len() == width
}

/// Number of distinct rows.
pub open spec fn distinct_count(rows: Seq<Seq<i32>>) -> nat {
    rows.to_set().len()
}

/// One input relation in declaration-column order.
#[derive(Clone, Debug, PartialEq, Eq)]
pub struct RelationData {
    pub name: String,
    pub arity: usize,
    pub rows: Vec<Vec<i32>>,
}

/// Copies a row.
pub fn clone_row(row: &Vec<i32>) -> (r: Vec<i32>)
    ensures
        r@ == row@,
{
    let mut out: Vec<i32> = Vec::new();
    for i in 0..row.len()
        invariant
            out@ == row@.take(i as int),
    {
        out.push(row[i]);
        assert(out@ == row@.take(i + 1));
    }
    assert(row@.take(row@.len() as int) == row@);
    out
}

impl RelationData {
    /// The rows as sequences of values.
    pub open spec fn rows_spec(&self) -> Seq<Seq<i32>> {
        rows_view(self.rows@)
    }

    /// A safely named relation of positive arity whose rows all have that arity.
    pub open spec fn well_formed(&self) -> bool {
        relation_name_ok(self.name@) && self.arity > 0 && rows_have_width(self.rows_spec(), self.arity as nat)
    }

    /// A relation from its name, arity and rows, refused unless it is well formed.
    pub fn new(name: String, arity: usize, rows: Vec<Vec<i32>>) -> (r: Result<Self, DatasetError>)
        ensures
            r is Ok <==> relation_name_ok(name@) && arity > 0 && rows_have_width(rows_view(rows@), arity as nat),
            r matches Ok(rel) ==> rel.name@ == name@ && rel.arity == arity && rel.rows_spec() == rows_view(rows@),
            r matches Err(e) ==> e is Schema,
    {
        let relation = RelationData { name, arity, rows };
        relation.validate_rows()?;
        Ok(relation)
    }

    /// The number of rows, duplicates included.
    pub fn raw_cardinality(&self) -> (n: usize)
        ensures
            n == self.rows@.len(),
    {
        self.rows.len()
    }

    /// The number of distinct rows.
    pub fn distinct_cardinality(&self) -> (n: usize)
        ensures
            n == distinct_count(self.rows_spec()),
    {
        let mut set = RowSet::new();
        for i in 0..self.rows.len()
            invariant
                set.wf(),
                set@.to_set() == self.rows_spec().take(i as int).to_set(),
                set@.len() <= i,
        {
            let row = clone_row(&self.rows[i]);
            set.insert(row);
            assert(self.rows_spec().take(i + 1) == self.rows_spec().take(i as int).push(self.rows_spec()[i as int]));
            proof {
                self.rows_spec().take(i as int).lemma_push_to_set_commute(self.rows_spec()[i as int]);
            }
        }
        assert(self.rows_spec().take(self.rows@.len() as int) == self.rows_spec());
        proof { set.lemma_distinct(); }
        set.len()
    }

    /// Checks the name, the arity, and the width of every row.
    pub fn validate_rows(&self) -> (r: Result<(), DatasetError>)
        ensures
            r is Ok <==> self.well_formed(),
            r matches Err(e) ==> match e {
                DatasetError::Schema(SchemaError::UnrepresentableToken { context, value }) => context == TokenContext::RelationName && value@ == self.name@ && !manifest_token_ok(self.name@),
                DatasetError::Schema(SchemaError::UnsafeRelationName { value }) => value@ == self.name@ && manifest_token_ok(self.name@) && !relation_name_ok(self.name@),
                DatasetError::Schema(SchemaError::NonPositiveArity { relation }) => relation@ == self.name@ && relation_name_ok(self.name@) && self.arity == 0,
                DatasetError::Schema(SchemaError::RowArity { relation, row, actual, expected }) => {
                    &&& relation@ == self.name@
                    &&& relation_name_ok(self.name@) && self.arity > 0
                    &&& 1 <= row <= self.rows@.len()
                    &&& actual == self.rows@[row - 1]@.len() && expected == self.arity
                    &&& actual != expected
                    &&& forall|k: int| 0 <= k < row - 1 ==> (#[trigger] self.rows@[k])@.len() == self.arity
                },
                _ => false,
            },
    {
        validate_relation_name(&self.name)?;
        if self.arity == 0 {
            return Err(DatasetError::Schema(SchemaError::NonPositiveArity { relation: self.name.clone() }));
        }
        for row_index in 0..self.rows.len()
            invariant
                relation_name_ok(self.name@),
                self.arity > 0,
                forall|k: int| 0 <= k < row_index ==> (#[trigger] self.rows@[k])@.len() == self.arity,
        {
            assert(self.rows_spec()[row_index as int] == self.rows@[row_index as int]@);
            if self.rows[row_index].len() != self.arity {
                return Err(DatasetError::Schema(SchemaError::RowArity {
                    relation: self.name.clone(),
                    row: row_index + 1,
                    actual: self.rows[row_index].len(),
                    expected: self.arity,
                }));
            }
        }
        assert forall|k: int| 0 <= k < self.rows_spec().len() implies (#[trigger] self.rows_spec()[k]).len() == self.arity by {
            assert(self.rows_spec()[k] == self.rows@[k]@);
        }
        Ok(())
    }
}


/// Cardinalities recorded from the actual rows.
#[derive(Clone, Debug, PartialEq, Eq)]
pub struct RelationCardinality {
    pub name: String,
    pub arity: usize,
    pub raw_rows: usize,
    pub distinct_rows: usize,
}

/// Reproduction metadata stored beside a dataset.
#[derive(Clone, Debug, PartialEq, Eq)]
pub struct Manifest {
    pub suite: Suite,
    pub case: String,
    pub scenario: Scenario,
    pub scale: Scale,
    pub seed: u64,
    pub generator_version: u32,
    pub relations: Vec<RelationCardinality>,
}

/// A complete set of inputs for one query case.
#[derive(Clone, Debug, PartialEq, Eq)]
pub struct Dataset {
    pub manifest: Manifest,
    pub relations: Vec<RelationData>,
}

/// `record` states exactly the name, arity, and raw and distinct counts of `relation`.
pub open spec fn records(record: RelationCardinality, relation: RelationData) -> bool {
    &&& record.name@ == relation.name@
    &&& record.arity == relation.arity
    &&& record.raw_rows == relation.rows@.len()
    &&& record.distinct_rows == distinct_count(relation.rows_spec())
}

/// Number of relations without rows.
pub open spec fn empty_relations(relations: Seq<RelationData>) -> nat
    decreases relations.len(),
{
    if relations.len() == 0 {
        0
    } else {
        empty_relations(relations.drop_last()) + if relations.last().rows@.len() == 0 {
            1nat
        } else {
            0nat
        }
    }
}

/// Coverage and no-match data have no empty input; empty-input data has exactly one.
pub open spec fn scenario_shape_ok(scenario: Scenario, empty: nat) -> bool {
    match scenario {
        Scenario::Coverage | Scenario::NoMatch => empty == 0,
        Scenario::EmptyInput => empty == 1,
    }
}

/// The relations match the declarations in order, by name and arity, and are well formed.
pub open spec fn relations_match(relations: Seq<RelationData>, inputs: Seq<RelationDecl>) -> bool {
    &&& relations.len() == inputs.len()
    &&& forall|i: int|
        0 <= i < relations.len() ==> {
            &&& (#[trigger] relations[i]).well_formed()
            &&& relations[i].name@ == inputs[i].name@
            &&& relations[i].arity == inputs[i].arity
        }
}

impl Dataset {
    /// Exact declaration order, names, arities, row widths, counts, and scenario shape.
    pub open spec fn valid_for(&self, module: &CqModule) -> bool {
        &&& manifest_token_ok(self.manifest.case@)
        &&& self.manifest.generator_version == GENERATOR_VERSION
        &&& relations_match(self.relations@, module.inputs@)
        &&& self.manifest.relations@.len() == module.inputs@.len()
        &&& forall|i: int|
            0 <= i < self.relations@.len() ==> records(
                #[trigger] self.manifest.relations@[i],
                self.relations@[i],
            )
        &&& scenario_shape_ok(self.manifest.scenario, empty_relations(self.relations@))
    }
}

/// The recorded cardinalities of one relation.
pub fn relation_cardinality(relation: &RelationData) -> (r: RelationCardinality)
    ensures
        records(r, *relation),
{
    RelationCardinality {
        name: relation.name.clone(),
        arity: relation.arity,
        raw_rows: relation.raw_cardinality(),
        distinct_rows: relation.distinct_cardinality(),
    }
}

fn same_cardinality(a: &RelationCardinality, b: &RelationCardinality) -> (r: bool)
    ensures
        r == (a.name@ == b.name@ && a.arity == b.arity && a.raw_rows == b.raw_rows
            && a.distinct_rows == b.distinct_rows),
{
    a.name == b.name && a.arity == b.arity && a.raw_rows == b.raw_rows && a.distinct_rows
        == b.distinct_rows
}

fn count_empty_relations(relations: &Vec<RelationData>) -> (n: usize)
    ensures
        n == empty_relations(relations@),
{
    let mut count: usize = 0;
    for i in 0..relations.len()
        invariant
            count == empty_relations(relations@.take(i as int)),
            count <= i,
    {
        assert(relations@.take(i + 1).drop_last() == relations@.take(i as int));
        if relations[i].rows.len() == 0 {
            count += 1;
        }
    }
    assert(relations@.take(relations@.len() as int) == relations@);
    count
}

fn check_scenario_shape(scenario: Scenario, empty: usize) -> (r: Result<(), DatasetError>)
    ensures
        r is Ok <==> scenario_shape_ok(scenario, empty as nat),
        r matches Err(e) ==> match e {
            DatasetError::Schema(SchemaError::EmptyInputsInNonemptyScenario { scenario: s, empty_relations: n }) => s == scenario && n == empty && n != 0,
            DatasetError::Schema(SchemaError::EmptyInputCount { empty_relations: n }) => n == empty && scenario == Scenario::EmptyInput,
            _ => false,
        },
{
    match scenario {
        Scenario::Coverage | Scenario::NoMatch => {
            if empty != 0 {
                return Err(DatasetError::Schema(SchemaError::EmptyInputsInNonemptyScenario {
                    scenario,
                    empty_relations: empty,
                }));
            }
        },
        Scenario::EmptyInput => {
            if empty != 1 {
                return Err(DatasetError::Schema(SchemaError::EmptyInputCount { empty_relations: empty }));
            }
        },
    }
    Ok(())
}

impl Dataset {
    /// Construct and validate generated data against the exact CQ schema.
    pub fn new(
        module: &CqModule,
        suite: Suite,
        case: String,
        config: GenerationConfig,
        relations: Vec<RelationData>,
    ) -> (r: Result<Self, DatasetError>)
        ensures
            r is Ok <==> manifest_token_ok(case@) && relations_match(relations@, module.inputs@)
                && scenario_shape_ok(config.scenario, empty_relations(relations@)),
            r matches Ok(d) ==> {
                &&& d.valid_for(module)
                &&& d.manifest.suite == suite
                &&& d.manifest.case@ == case@
                &&& d.manifest.scenario == config.scenario
                &&& d.manifest.scale == config.scale
                &&& d.manifest.seed == config.seed
                &&& d.manifest.generator_version == GENERATOR_VERSION
                &&& d.relations@ == relations@
            },
    {
        validate_manifest_token(TokenContext::CaseName, &case)?;
        let mut recorded: Vec<RelationCardinality> = Vec::new();
        for i in 0..relations.len()
            invariant
                recorded@.len() == i,
                forall|k: int| 0 <= k < i ==> records(#[trigger] recorded@[k], relations@[k]),
        {
            recorded.push(relation_cardinality(&relations[i]));
        }
        let manifest = Manifest {
            suite,
            case,
            scenario: config.scenario,
            scale: config.scale,
            seed: config.seed,
            generator_version: GENERATOR_VERSION,
            relations: recorded,
        };
        let dataset = Dataset { manifest, relations };
        dataset.validate(module)?;
        Ok(dataset)
    }

    /// Enforce exact declaration order, names, arities, row widths, and counts.
    pub fn validate(&self, module: &CqModule) -> (r: Result<(), DatasetError>)
        ensures
            r is Ok <==> self.valid_for(module),
            !manifest_token_ok(self.manifest.case@) ==> (r matches Err(DatasetError::Schema(SchemaError::UnrepresentableToken { context, value })) && context == TokenContext::CaseName && value@ == self.manifest.case@),
            manifest_token_ok(self.manifest.case@) && self.manifest.generator_version != GENERATOR_VERSION
                ==> (r matches Err(DatasetError::Schema(SchemaError::GeneratorVersion { actual, expected })) && actual == self.manifest.generator_version && expected == GENERATOR_VERSION),
            manifest_token_ok(self.manifest.case@) && self.manifest.generator_version == GENERATOR_VERSION && self.relations@.len() != module.inputs@.len()
                ==> (r matches Err(DatasetError::Schema(SchemaError::RelationCount { actual, declared })) && actual == self.relations@.len() && declared == module.inputs@.len()),
            manifest_token_ok(self.manifest.case@) && self.manifest.generator_version == GENERATOR_VERSION && self.relations@.len() == module.inputs@.len()
                && self.manifest.relations@.len() != module.inputs@.len()
                ==> (r matches Err(DatasetError::Schema(SchemaError::ManifestEntryCount { actual, declared })) && actual == self.manifest.relations@.len() && declared == module.inputs@.len()),
            r matches Err(DatasetError::Schema(SchemaError::DeclarationMismatch { position, .. })) ==> 1 <= position <= module.inputs@.len()
                && (self.relations@[position - 1].name@ != module.inputs@[position - 1].name@ || self.relations@[position - 1].arity != module.inputs@[position - 1].arity),
            r matches Err(DatasetError::Schema(SchemaError::EmptyInputsInNonemptyScenario { scenario, empty_relations: n })) ==> relations_match(self.relations@, module.inputs@)
                && scenario == self.manifest.scenario && n == empty_relations(self.relations@) && n > 0,
            r matches Err(DatasetError::Schema(SchemaError::EmptyInputCount { empty_relations: n })) ==> relations_match(self.relations@, module.inputs@)
                && self.manifest.scenario == Scenario::EmptyInput && n == empty_relations(self.relations@) && n != 1,
    {
        validate_manifest_token(TokenContext::CaseName, &self.manifest.case)?;
        if self.manifest.generator_version != GENERATOR_VERSION {
            return Err(DatasetError::Schema(SchemaError::GeneratorVersion {
                actual: self.manifest.generator_version,
                expected: GENERATOR_VERSION,
            }));
        }
        let declarations = &module.inputs;
        if self.relations.len() != declarations.len() {
            return Err(DatasetError::Schema(SchemaError::RelationCount {
                actual: self.relations.len(),
                declared: declarations.len(),
            }));
        }
        if self.manifest.relations.len() != declarations.len() {
            return Err(DatasetError::Schema(SchemaError::ManifestEntryCount {
                actual: self.manifest.relations.len(),
                declared: declarations.len(),
            }));
        }
        for position in 0..declarations.len()
            invariant
                self.relations@.len() == declarations@.len(),
                self.manifest.relations@.len() == declarations@.len(),
                declarations == &module.inputs,
                manifest_token_ok(self.manifest.case@),
                self.manifest.generator_version == GENERATOR_VERSION,
                forall|i: int|
                    0 <= i < position ==> {
                        &&& (#[trigger] self.relations@[i]).well_formed()
                        &&& self.relations@[i].name@ == declarations@[i].name@
                        &&& self.relations@[i].arity == declarations@[i].arity
                        &&& records(self.manifest.relations@[i], self.relations@[i])
                    },
        {
            let relation = &self.relations[position];
            let declaration = &declarations[position];
            relation.validate_rows()?;
            if relation.name != declaration.name || relation.arity != declaration.arity {
                return Err(DatasetError::Schema(SchemaError::DeclarationMismatch {
                    position: position + 1,
                    name: relation.name.clone(),
                    arity: relation.arity,
                    expected_name: declaration.name.clone(),
                    expected_arity: declaration.arity,
                }));
            }
            let actual = relation_cardinality(relation);
            let recorded = &self.manifest.relations[position];
            if !same_cardinality(recorded, &actual) {
                return Err(DatasetError::Schema(SchemaError::StaleCardinality {
                    relation: relation.name.clone(),
                    recorded_raw: recorded.raw_rows,
                    recorded_distinct: recorded.distinct_rows,
                    actual_raw: actual.raw_rows,
                    actual_distinct: actual.distinct_rows,
                }));
            }
        }
        let empty = count_empty_relations(&self.relations);
        check_scenario_shape(self.manifest.scenario, empty)
    }

    /// Match a manifest to the catalog case and generation request.
    ///
    /// Schema validation alone cannot distinguish a dataset copied under a
    /// different scenario or scale, or data produced with another seed.
    pub fn validate_provenance(&self, suite: Suite, case: &String, config: GenerationConfig) -> (r:
        Result<(), DatasetError>)
        ensures
            r is Ok <==> self.manifest.suite == suite && self.manifest.case@ == case@
                && self.manifest.scenario == config.scenario && self.manifest.scale
                == config.scale && self.manifest.seed == config.seed,
            r matches Err(e) ==> e matches DatasetError::Schema(SchemaError::Provenance { .. }),
    {
        let actual = &self.manifest;
        if actual.suite != suite || actual.case != *case || actual.scenario != config.scenario
            || actual.scale != config.scale || actual.seed != config.seed {
            return Err(DatasetError::Schema(SchemaError::Provenance {
                actual_suite: actual.suite,
                actual_case: actual.case.clone(),
                actual_scenario: actual.scenario,
                actual_scale: actual.scale,
                actual_seed: actual.seed,
                expected_suite: suite,
                expected_case: case.clone(),
                expected_scenario: config.scenario,
                expected_scale: config.scale,
                expected_seed: config.seed,
            }));
        }
        Ok(())
    }

    /// The first relation with this name, if any.
    pub fn relation(&self, name: &String) -> (r: Option<&RelationData>)
        ensures
            match r {
                Some(rel) => exists|i: int|
                    0 <= i < self.relations@.len() && self.relations@[i] == *rel
                        && rel.name@ == name@ && forall|k: int|
                        0 <= k < i ==> (#[trigger] self.relations@[k]).name@ != name@,
                None => forall|k: int|
                    0 <= k < self.relations@.len() ==> (#[trigger] self.relations@[k]).name@
                        != name@,
            },
    {
        for i in 0..self.relations.len()
            invariant
                forall|k: int| 0 <= k < i ==> (#[trigger] self.relations@[k]).name@ != name@,
        {
            if self.relations[i].name == *name {
                return Some(&self.relations[i]);
            }
        }
        None
    }
}

proof fn lemma_adjacent_chain(s: Seq<Seq<i32>>, i: int, j: int)
    requires
        forall|m: int| 0 <= m < s.len() - 1 ==> lex_lt(#[trigger] s[m], s[m + 1]),
        0 <= i < j < s.len(),
    ensures
        lex_lt(s[i], s[j]),
    decreases j - i,
{
    if j > i + 1 {
        lemma_adjacent_chain(s, i, j - 1);
        crate::rows::lemma_lex_transitive(s[i], s[j - 1], s[j]);
    }
}

/// Rows `i` and `i + 1` are in strict order for every `i`.
pub proof fn lemma_adjacent_sorted(s: Seq<Seq<i32>>)
    requires
        forall|i: int| 0 <= i < s.len() - 1 ==> lex_lt(#[trigger] s[i], s[i + 1]),
    ensures
        crate::rows::strictly_sorted(s),
{
    assert forall|i: int, j: int| 0 <= i < j < s.len() implies lex_lt(#[trigger] s[i], #[trigger] s[j]) by {
        lemma_adjacent_chain(s, i, j);
    }
}

/// Checks that a materialized result is strictly increasing (hence distinct).
pub fn validate_materialized_result(rows: &Vec<Vec<i32>>) -> (r: Result<(), DatasetError>)
    ensures
        r is Ok <==> crate::rows::strictly_sorted(rows_view(rows@)),
        r matches Err(e) ==> match e {
            DatasetError::Schema(SchemaError::UnorderedResult { position, first, second }) => {
                &&& 1 <= position < rows@.len()
                &&& first@ == rows@[position - 1]@
                &&& second@ == rows@[position as int]@
                &&& !lex_lt(first@, second@)
                &&& forall|k: int| 0 <= k < position - 1 ==> lex_lt(#[trigger] rows@[k]@, rows@[k + 1]@)
            },
            _ => false,
        },
{
    let ghost s = rows_view(rows@);
    if rows.len() < 2 {
        proof { lemma_adjacent_sorted(s); }
        return Ok(());
    }
    for i in 0..rows.len() - 1
        invariant
            rows@.len() >= 2,
            s == rows_view(rows@),
            forall|k: int| 0 <= k < i ==> lex_lt(#[trigger] rows@[k]@, rows@[k + 1]@),
    {
        if crate::rows::compare_rows(&rows[i], &rows[i + 1]) != crate::rows::RowOrder::Less {
            proof {
                assert(s[i as int] == rows@[i as int]@);
                assert(s[i + 1] == rows@[i + 1]@);
                assert(!lex_lt(s[i as int], s[i + 1]));
            }
            return Err(DatasetError::Schema(SchemaError::UnorderedResult {
                position: i + 1,
                first: clone_row(&rows[i]),
                second: clone_row(&rows[i + 1]),
            }));
        }
    }
    proof {
        assert forall|k: int| 0 <= k < s.len() - 1 implies lex_lt(#[trigger] s[k], s[k + 1]) by {
            assert(s[k] == rows@[k]@);
            assert(s[k + 1] == rows@[k + 1]@);
        }
        lemma_adjacent_sorted(s);
    }
    Ok(())
}

/// Spec name of the CSV file holding the input at `index`.
pub open spec fn input_file_name_spec(index: nat) -> Seq<char> {
    "input"@ + crate::text::dec_nat(index) + ".csv"@
}

/// An input file name has no upper-case letter, so lower-casing leaves it
/// as it is.
pub proof fn input_file_name_is_lowercase(index: nat)
    ensures
        crate::text::ascii_lowercase(input_file_name_spec(index)) == input_file_name_spec(index),
{
    reveal_strlit("input");
    reveal_strlit(".csv");
    let d = crate::text::dec_nat(index);
    crate::text::lemma_dec_nat(index);
    let s = input_file_name_spec(index);
    assert forall|i: int| 0 <= i < s.len() implies !('A' <= #[trigger] s[i] && s[i] <= 'Z') by {
        if 5 <= i < 5 + d.len() {
            assert(s[i] == d[i - 5]);
            assert(crate::text::is_digit(d[i - 5]));
        }
    }
    assert(crate::text::ascii_lowercase(s) =~= s);
}

/// Distinct input positions get distinct CSV file names, also where a file
/// system ignores the case of letters.
pub proof fn input_file_names_are_distinct(first: nat, second: nat)
    requires
        first != second,
    ensures
        input_file_name_spec(first) != input_file_name_spec(second),
        crate::text::ascii_lowercase(input_file_name_spec(first)) != crate::text::ascii_lowercase(input_file_name_spec(second)),
{
    input_file_name_is_lowercase(first);
    input_file_name_is_lowercase(second);
    reveal_strlit("input");
    reveal_strlit(".csv");
    let a = input_file_name_spec(first);
    let b = input_file_name_spec(second);
    if a == b {
        let da = crate::text::dec_nat(first);
        let db = crate::text::dec_nat(second);
        assert(a.len() == 5 + da.len() + 4);
        assert(da.len() == db.len());
        assert(a.subrange(5, 5 + da.len() as int) =~= da);
        assert(b.subrange(5, 5 + db.len() as int) =~= db);
        crate::text::lemma_unsigned_literal_of_dec(first);
        crate::text::lemma_unsigned_literal_of_dec(second);
    }
}

/// Collision-proof CSV filename for one declared input position.
///
/// Source relation identifiers remain in the manifest. Positional filenames
/// avoid `R`/`r` collisions on case-insensitive filesystems.
pub fn input_file_name(input_index: usize) -> (r: String)
    ensures
        r@ == input_file_name_spec(input_index as nat),
        crate::text::ascii_lowercase(r@) == r@,
{
    proof { input_file_name_is_lowercase(input_index as nat); }
    let mut name = String::from_str("input");
    crate::text::push_u64(&mut name, input_index as u64);
    crate::text::push_str(&mut name, ".csv");
    name
}

/// The name of some declared input file.
pub open spec fn is_declared_file(name: Seq<char>, relation_count: nat) -> bool {
    exists|k: nat| k < relation_count && name == input_file_name_spec(k)
}

fn is_declared(name: &String, relation_count: usize) -> (b: bool)
    ensures
        b == is_declared_file(name@, relation_count as nat),
{
    let mut k: usize = 0;
    while k < relation_count
        invariant
            k <= relation_count,
            forall|m: nat| m < k ==> name@ != input_file_name_spec(m),
        decreases relation_count - k,
    {
        let expected = input_file_name(k);
        if *name == expected {
            return true;
        }
        k += 1;
    }
    false
}

/// Rejects any CSV file name other than those of the declared inputs.
pub fn check_csv_file_names(file_names: &Vec<String>, relation_count: usize) -> (r: Result<
    (),
    DatasetError,
>)
    ensures
        r is Ok <==> forall|i: int|
            0 <= i < file_names@.len() ==> is_declared_file((#[trigger] file_names@[i])@, relation_count as nat),
        r matches Err(e) ==> e matches DatasetError::Schema(SchemaError::UndeclaredCsvFile { file_name }) && !is_declared_file(file_name@, relation_count as nat),
{
    for i in 0..file_names.len()
        invariant
            forall|j: int| 0 <= j < i ==> is_declared_file((#[trigger] file_names@[j])@, relation_count as nat),
    {
        if !is_declared(&file_names[i], relation_count) {
            return Err(DatasetError::Schema(SchemaError::UndeclaredCsvFile { file_name: file_names[i].clone() }));
        }
    }
    Ok(())
}


/// The canonical decimal fields of a row.
pub open spec fn int_fields(row: Seq<i32>) -> Seq<Seq<char>> {
    row.map_values(|v: i32| dec_int(v as int))
}

/// One CSV line: the fields joined by commas.
pub open spec fn csv_line(row: Seq<i32>) -> Seq<char> {
    join_with(int_fields(row), ',')
}

/// The CSV line of every row.
pub open spec fn csv_lines(rows: Seq<Seq<i32>>) -> Seq<Seq<char>> {
    rows.map_values(|r: Seq<i32>| csv_line(r))
}

/// Headerless CSV text: every row on its own line, each line ending in a newline.
pub open spec fn csv_text(rows: Seq<Seq<i32>>) -> Seq<char> {
    join_with(csv_lines(rows).push(Seq::<char>::empty()), '\n')
}

/// `line` is the CSV line of some row of `arity` values.
pub open spec fn row_line(line: Seq<char>, arity: nat) -> bool {
    exists|row: Seq<i32>| row.len() == arity && #[trigger] csv_line(row) == line
}

/// `field` is the canonical decimal text of some 32-bit value.
pub open spec fn canonical_i32(field: Seq<char>) -> bool {
    exists|v: i32| #[trigger] dec_int(v as int) == field
}

/// `str::parse` reads `field` as a 32-bit value.
pub open spec fn parses_as_i32(field: Seq<char>) -> bool {
    crate::text::signed_literal_value(field) matches Some(v) && i32::MIN <= v <= i32::MAX
}

/// What is wrong with one CSV line that is meant to hold `arity` values.
pub open spec fn line_problem(line: Seq<char>, arity: nat, problem: CsvProblem) -> bool {
    let fields = split_on(line, ',');
    match problem {
        CsvProblem::MissingFinalNewline => false,
        CsvProblem::BlankRow => line.len() == 0,
        CsvProblem::ColumnCount { found, expected } => line.len() > 0 && found == fields.len() && expected == arity
            && found != arity,
        CsvProblem::NotAnI32 { column, field } => {
            &&& line.len() > 0 && fields.len() == arity && 1 <= column <= arity
            &&& field@ == fields[column - 1] && !parses_as_i32(field@)
            &&& forall|c: int| 0 <= c < column - 1 ==> canonical_i32(#[trigger] fields[c])
        },
        CsvProblem::NotCanonical { column, field } => {
            &&& line.len() > 0 && fields.len() == arity && 1 <= column <= arity
            &&& field@ == fields[column - 1] && parses_as_i32(field@) && !canonical_i32(field@)
            &&& forall|c: int| 0 <= c < column - 1 ==> canonical_i32(#[trigger] fields[c])
        },
    }
}

/// Why CSV text is refused at `line` (counting from 1): the text does not end
/// in a newline, or every earlier line holds a row and this one has
/// `problem`.
pub open spec fn csv_refusal(text: Seq<char>, arity: nat, line: usize, problem: CsvProblem) -> bool {
    let lines = split_on(text, '\n');
    if problem is MissingFinalNewline {
        text.len() > 0 && text.last() != '\n'
    } else {
        &&& !(text.len() > 0 && text.last() != '\n')
        &&& 1 <= line < lines.len()
        &&& forall|k: int| 0 <= k < line - 1 ==> row_line(#[trigger] lines[k], arity)
        &&& line_problem(lines[line - 1], arity, problem)
    }
}

/// `text` is the CSV text of rows of width `arity` for a valid relation.
pub open spec fn csv_decodable(rows: Seq<Seq<i32>>, name: Seq<char>, arity: nat, text: Seq<char>) -> bool {
    &&& rows_have_width(rows, arity)
    &&& arity > 0
    &&& relation_name_ok(name)
    &&& csv_text(rows) == text
}

/// Joining terminated lines after one more line appends that line and the separator.
pub proof fn lemma_join_push_terminated(lines: Seq<Seq<char>>, x: Seq<char>, c: char)
    ensures
        join_with(lines.push(x).push(Seq::<char>::empty()), c) == join_with(
            lines.push(Seq::<char>::empty()),
            c,
        ) + x.push(c),
{
    let e = Seq::<char>::empty();
    assert(lines.push(x).push(e).drop_last() == lines.push(x));
    assert(lines.push(x).drop_last() == lines);
    assert(lines.push(e).drop_last() == lines);
    if lines.len() == 0 {
        assert(join_with(lines.push(x), c) == x);
        assert(join_with(lines.push(e), c) == e);
        assert(join_with(lines.push(x).push(e), c) =~= e + x.push(c));
    } else {
        let j = join_with(lines, c);
        assert(join_with(lines.push(x), c) == j.push(c) + x);
        assert(join_with(lines.push(e), c) == j.push(c) + e);
        assert(join_with(lines.push(x).push(e), c) == (j.push(c) + x).push(c) + e);
        assert((j.push(c) + x).push(c) + e =~= (j.push(c) + e) + x.push(c));
    }
}

/// Joining one more piece appends the separator and the piece.
pub proof fn lemma_join_push(pieces: Seq<Seq<char>>, x: Seq<char>, c: char)
    ensures
        join_with(pieces.push(x), c) == if pieces.len() == 0 {
            x
        } else {
            join_with(pieces, c).push(c) + x
        },
{
    assert(pieces.push(x).drop_last() == pieces);
}

/// A joined sequence of pieces free of `d` is free of `d` when `c != d`.
pub proof fn lemma_join_free(pieces: Seq<Seq<char>>, c: char, d: char)
    requires
        c != d,
        pieces_free_of(pieces, d),
    ensures
        !join_with(pieces, c).contains(d),
    decreases pieces.len(),
{
    if pieces.len() > 1 {
        let init = pieces.drop_last();
        assert(pieces_free_of(init, d)) by {
            assert forall|i: int| 0 <= i < init.len() implies !(#[trigger] init[i]).contains(d) by {
                assert(init[i] == pieces[i]);
            }
        }
        lemma_join_free(init, c, d);
        let j = join_with(init, c).push(c) + pieces.last();
        assert(!pieces.last().contains(d)) by { assert(pieces[pieces.len() - 1] == pieces.last()); }
        if j.contains(d) {
            let k = choose|k: int| 0 <= k < j.len() && j[k] == d;
            if k < join_with(init, c).len() {
                assert(join_with(init, c)[k] == d);
            } else if k > join_with(init, c).len() {
                assert(pieces.last()[k - join_with(init, c).len() - 1] == d);
            }
        }
    } else if pieces.len() == 1 {
        assert(!pieces[0].contains(d));
    }
}

proof fn lemma_int_fields_free(row: Seq<i32>, d: char)
    requires
        d == ',' || d == '\n' || d == '\t',
    ensures
        pieces_free_of(int_fields(row), d),
{
    assert forall|i: int| 0 <= i < int_fields(row).len() implies !(#[trigger] int_fields(row)[i]).contains(d) by {
        crate::text::lemma_dec_int_chars(row[i] as int);
        let f = int_fields(row)[i];
        if f.contains(d) {
            let k = choose|k: int| 0 <= k < f.len() && f[k] == d;
            assert(dec_int(row[i] as int)[k] == d);
        }
    }
}

proof fn lemma_csv_lines_free(rows: Seq<Seq<i32>>)
    ensures
        pieces_free_of(csv_lines(rows).push(Seq::<char>::empty()), '\n'),
{
    assert forall|i: int| 0 <= i < csv_lines(rows).push(Seq::<char>::empty()).len() implies !(#[trigger] csv_lines(rows).push(Seq::<char>::empty())[i]).contains('\n') by {
        if i < rows.len() {
            lemma_int_fields_free(rows[i], '\n');
            lemma_join_free(int_fields(rows[i]), ',', '\n');
        }
    }
}

/// Every CSV line of a nonempty row is nonempty.
proof fn lemma_csv_line_nonempty(row: Seq<i32>)
    requires
        row.len() > 0,
    ensures
        csv_line(row).len() > 0,
    decreases row.len(),
{
    crate::text::lemma_dec_int_chars(row.last() as int);
    if row.len() > 1 {
        assert(int_fields(row).drop_last() == int_fields(row.drop_last()));
        assert(int_fields(row).last() == dec_int(row.last() as int));
    } else {
        assert(int_fields(row)[0] == dec_int(row[0] as int));
    }
}

/// The last piece of a split is empty exactly when the text is empty or ends in the separator.
pub proof fn lemma_split_last_empty(s: Seq<char>, c: char)
    ensures
        (split_on(s, c).last().len() == 0) <==> (s.len() == 0 || s.last() == c),
{
    if s.len() > 0 {
        crate::split::lemma_split_len(s.drop_last(), c);
    }
}

/// Distinct rows have distinct CSV lines.
proof fn lemma_csv_line_injective(a: Seq<i32>, b: Seq<i32>)
    requires
        csv_line(a) == csv_line(b),
    ensures
        a == b,
{
    if a.len() == 0 || b.len() == 0 {
        if a.len() > 0 {
            lemma_csv_line_nonempty(a);
        }
        if b.len() > 0 {
            lemma_csv_line_nonempty(b);
        }
        assert(a =~= b);
    } else {
        lemma_int_fields_free(a, ',');
        lemma_int_fields_free(b, ',');
        crate::split::lemma_split_join(int_fields(a), ',');
        crate::split::lemma_split_join(int_fields(b), ',');
        assert(int_fields(a) == int_fields(b));
        assert forall|i: int| 0 <= i < a.len() implies a[i] == b[i] by {
            assert(int_fields(a)[i] == dec_int(a[i] as int));
            assert(int_fields(b)[i] == dec_int(b[i] as int));
            crate::text::lemma_signed_literal_of_dec(a[i] as int);
            crate::text::lemma_signed_literal_of_dec(b[i] as int);
        }
        assert(a =~= b);
    }
}

/// Splitting CSV text on newlines gives its lines and a final empty piece.
proof fn lemma_split_csv_text(rows: Seq<Seq<i32>>)
    ensures
        split_on(csv_text(rows), '\n') == csv_lines(rows).push(Seq::<char>::empty()),
{
    lemma_csv_lines_free(rows);
    crate::split::lemma_split_join(csv_lines(rows).push(Seq::<char>::empty()), '\n');
}

/// Distinct row sequences have distinct CSV texts.
pub proof fn lemma_csv_text_injective(a: Seq<Seq<i32>>, b: Seq<Seq<i32>>)
    requires
        csv_text(a) == csv_text(b),
    ensures
        a == b,
{
    lemma_split_csv_text(a);
    lemma_split_csv_text(b);
    let e = Seq::<char>::empty();
    assert(csv_lines(a).push(e).drop_last() == csv_lines(a));
    assert(csv_lines(b).push(e).drop_last() == csv_lines(b));
    assert(csv_lines(a) == csv_lines(b));
    assert forall|i: int| 0 <= i < a.len() implies a[i] == b[i] by {
        assert(csv_lines(a)[i] == csv_line(a[i]));
        assert(csv_lines(b)[i] == csv_line(b[i]));
        lemma_csv_line_injective(a[i], b[i]);
    }
    assert(a =~= b);
}

/// Writes deterministic headerless CSV.
pub fn encode_csv(relation: &RelationData) -> (r: String)
    ensures
        r@ == csv_text(relation.rows_spec()),
{
    let ghost rows = relation.rows_spec();
    let mut output = String::new();
    assert(csv_lines(rows.take(0)) =~= Seq::<Seq<char>>::empty());
    assert(output@ == csv_text(rows.take(0)));
    for i in 0..relation.rows.len()
        invariant
            rows == relation.rows_spec(),
            output@ == csv_text(rows.take(i as int)),
    {
        let row = &relation.rows[i];
        let ghost start = output@;
        assert(row@ == rows[i as int]);
        assert(int_fields(row@.take(0)) =~= Seq::<Seq<char>>::empty());
        for column in 0..row.len()
            invariant
                output@ == start + join_with(int_fields(row@.take(column as int)), ','),
        {
            let ghost before = output@;
            if column != 0 {
                crate::text::push_char(&mut output, ',');
            }
            crate::text::push_i64(&mut output, row[column] as i64);
            proof {
                assert(row@.take(column + 1) == row@.take(column as int).push(row@[column as int]));
                assert(int_fields(row@.take(column + 1)) == int_fields(row@.take(column as int)).push(dec_int(row@[column as int] as int)));
                lemma_join_push(int_fields(row@.take(column as int)), dec_int(row@[column as int] as int), ',');
            }
        }
        crate::text::push_char(&mut output, '\n');
        proof {
            assert(row@.take(row@.len() as int) == row@);
            assert(rows.take(i + 1) == rows.take(i as int).push(rows[i as int]));
            assert(csv_lines(rows.take(i + 1)) == csv_lines(rows.take(i as int)).push(csv_line(rows[i as int])));
            lemma_join_push_terminated(csv_lines(rows.take(i as int)), csv_line(rows[i as int]), '\n');
        }
    }
    assert(rows.take(rows.len() as int) == rows);
    output
}

/// Reads canonical headerless CSV of the given arity.
pub fn decode_csv(path: &String, name: &String, arity: usize, text: &str) -> (r: Result<
    RelationData,
    DatasetError,
>)
    ensures
        r matches Ok(rel) ==> (rel.name@ == name@ && rel.arity == arity && rel.well_formed()
            && csv_text(rel.rows_spec()) == text@),
        forall|rows: Seq<Seq<i32>>|
            #[trigger] csv_decodable(rows, name@, arity as nat, text@) ==> (r matches Ok(rel)
                && rel.rows_spec() == rows),
        (text@.len() > 0 && text@.last() != '\n') ==> r matches Err(DatasetError::Csv { problem: CsvProblem::MissingFinalNewline, .. }),
        r matches Err(DatasetError::Csv { line, problem, .. }) ==> csv_refusal(text@, arity as nat, line, problem),
        r matches Err(e) ==> e is Csv || e is Schema,
        r matches Err(DatasetError::Schema(_)) ==> !(relation_name_ok(name@) && arity > 0),
{
    let chars = crate::text::chars_of(text);
    let ghost has_target = exists|rows: Seq<Seq<i32>>| csv_decodable(rows, name@, arity as nat, text@);
    let ghost target = choose|rows: Seq<Seq<i32>>| csv_decodable(rows, name@, arity as nat, text@);
    let pieces = split_chars(chars.as_slice(), '\n');
    proof {
        crate::split::lemma_split_len(text@, '\n');
        lemma_split_last_empty(text@, '\n');
        if has_target {
            lemma_csv_lines_free(target);
            crate::split::lemma_split_join(csv_lines(target).push(Seq::<char>::empty()), '\n');
            assert(pieces_view(pieces@) == csv_lines(target).push(Seq::<char>::empty()));
        }
    }
    if chars.len() > 0 && chars[chars.len() - 1] != '\n' {
        assert(chars@.last() == chars@[chars@.len() - 1]);
        return Err(DatasetError::Csv {
            path: path.clone(),
            line: pieces.len(),
            problem: CsvProblem::MissingFinalNewline,
        });
    }
    let line_count = pieces.len() - 1;
    let mut rows: Vec<Vec<i32>> = Vec::new();
    for line_index in 0..line_count
        invariant
            line_count == pieces@.len() - 1,
            pieces_view(pieces@) == split_on(text@, '\n'),
            rows@.len() == line_index,
            forall|k: int| 0 <= k < line_index ==> csv_line(#[trigger] rows@[k]@) == pieces@[k]@ && rows@[k]@.len() == arity,
            has_target ==> pieces_view(pieces@) == csv_lines(target).push(Seq::<char>::empty()),
            has_target ==> csv_decodable(target, name@, arity as nat, text@),
            has_target ==> rows_view(rows@) == target.take(line_index as int),
            !(text@.len() > 0 && text@.last() != '\n'),
            has_target == exists|rows: Seq<Seq<i32>>| csv_decodable(rows, name@, arity as nat, text@),
    {
        let line = &pieces[line_index];
        let line_number = line_index + 1;
        proof {
            assert forall|k: int| 0 <= k < line_index implies row_line(#[trigger] split_on(text@, '\n')[k], arity as nat) by {
                assert(pieces_view(pieces@)[k] == pieces@[k]@);
                assert(csv_line(rows@[k]@) == pieces@[k]@);
            }
            assert(pieces_view(pieces@)[line_index as int] == line@);
            if has_target {
                assert(csv_lines(target).push(Seq::<char>::empty())[line_index as int] == csv_lines(target)[line_index as int]);
                assert(line@ == csv_line(target[line_index as int]));
                assert(target[line_index as int].len() == arity);
                lemma_csv_line_nonempty(target[line_index as int]);
                lemma_int_fields_free(target[line_index as int], ',');
                crate::split::lemma_split_join(int_fields(target[line_index as int]), ',');
            }
        }
        if line.len() == 0 {
            assert(!has_target);
            return Err(DatasetError::Csv { path: path.clone(), line: line_number, problem: CsvProblem::BlankRow });
        }
        let fields = split_chars(line.as_slice(), ',');
        proof { crate::split::lemma_join_split(line@, ','); }
        let ghost earlier_rows = forall|k: int| 0 <= k < line_index ==> row_line(#[trigger] split_on(text@, '\n')[k], arity as nat);
        assert(earlier_rows);
        if fields.len() != arity {
            assert(!has_target);
            return Err(DatasetError::Csv {
                path: path.clone(),
                line: line_number,
                problem: CsvProblem::ColumnCount { found: fields.len(), expected: arity },
            });
        }
        let mut row: Vec<i32> = Vec::new();
        for column in 0..fields.len()
            invariant
                fields@.len() == arity,
                row@.len() == column,
                forall|k: int| 0 <= k < column ==> dec_int(#[trigger] row@[k] as int) == fields@[k]@,
                has_target ==> pieces_view(fields@) == int_fields(target[line_index as int]),
                has_target ==> row@ == target[line_index as int].take(column as int),
                has_target ==> target[line_index as int].len() == arity,
                line_index < line_count,
                line_count == pieces@.len() - 1,
                has_target ==> csv_decodable(target, name@, arity as nat, text@),
                has_target ==> rows_view(rows@) == target.take(line_index as int),
                !(text@.len() > 0 && text@.last() != '\n'),
                has_target == exists|rows: Seq<Seq<i32>>| csv_decodable(rows, name@, arity as nat, text@),
                earlier_rows == forall|k: int| 0 <= k < line_index ==> row_line(#[trigger] split_on(text@, '\n')[k], arity as nat),
                earlier_rows,
                pieces_view(pieces@) == split_on(text@, '\n'),
                pieces_view(fields@) == split_on(line@, ','),
                line@ == split_on(text@, '\n')[line_index as int],
                line@.len() > 0,
                line_number == line_index + 1,
        {
            proof {
                assert(pieces_view(fields@)[column as int] == fields@[column as int]@);
                assert forall|c: int| 0 <= c < column implies canonical_i32(#[trigger] split_on(line@, ',')[c]) by {
                    assert(pieces_view(fields@)[c] == fields@[c]@);
                    assert(dec_int(row@[c] as int) == fields@[c]@);
                }
                if has_target {
                    assert(int_fields(target[line_index as int])[column as int] == dec_int(target[line_index as int][column as int] as int));
                    assert(fields@[column as int]@ == dec_int(target[line_index as int][column as int] as int));
                }
            }
            match crate::text::parse_i32(&fields[column]) {
                Decimal::Invalid => {
                    assert(!has_target);
                    assert(!parses_as_i32(fields@[column as int]@));
                    let problem = CsvProblem::NotAnI32 { column: column + 1, field: chars_to_string(&fields[column]) };
                    proof {
                        let lines = split_on(text@, '\n');
                        assert(lines[line_number - 1] == line@);
                        assert(split_on(line@, ',')[column as int] == fields@[column as int]@);
                        assert(line_problem(line@, arity as nat, problem));
                    }
                    return Err(DatasetError::Csv { path: path.clone(), line: line_number, problem });
                },
                Decimal::NonCanonical => {
                    assert(!has_target);
                    assert(parses_as_i32(fields@[column as int]@));
                    assert(!canonical_i32(fields@[column as int]@)) by {
                        if canonical_i32(fields@[column as int]@) {
                            let v = choose|v: i32| #[trigger] dec_int(v as int) == fields@[column as int]@;
                            assert(fields@[column as int]@ == dec_int(v as int));
                        }
                    }
                    let problem = CsvProblem::NotCanonical { column: column + 1, field: chars_to_string(&fields[column]) };
                    proof {
                        let lines = split_on(text@, '\n');
                        assert(lines[line_number - 1] == line@);
                        assert(split_on(line@, ',')[column as int] == fields@[column as int]@);
                        assert(line_problem(line@, arity as nat, problem));
                    }
                    return Err(DatasetError::Csv { path: path.clone(), line: line_number, problem });
                },
                Decimal::Value(value) => {
                    row.push(value);
                    proof {
                        if has_target {
                            assert(target[line_index as int].take(column + 1) == target[line_index as int].take(column as int).push(value));
                        }
                    }
                },
            }
        }
        proof {
            assert(int_fields(row@) =~= pieces_view(fields@));
            assert(csv_line(row@) == line@);
            if has_target {
                assert(target[line_index as int].take(arity as int) == target[line_index as int]);
                assert(target.take(line_index + 1) == target.take(line_index as int).push(target[line_index as int]));
            }
        }
        let ghost rows_before = rows@;
        rows.push(row);
        proof {
            assert(rows_view(rows@) =~= rows_view(rows_before).push(rows@[line_index as int]@));
        }
    }
    proof {
        let built = rows_view(rows@);
        assert(csv_lines(built).push(Seq::<char>::empty()) =~= split_on(text@, '\n')) by {
            assert forall|k: int| 0 <= k < line_count implies csv_lines(built)[k] == split_on(text@, '\n')[k] by {
                assert(built[k] == rows@[k]@);
                assert(pieces_view(pieces@)[k] == pieces@[k]@);
            }
        }
        crate::split::lemma_join_split(text@, '\n');
        assert(rows_have_width(built, arity as nat)) by {
            assert forall|k: int| 0 <= k < built.len() implies (#[trigger] built[k]).len() == arity by {
                assert(built[k] == rows@[k]@);
            }
        }
        if has_target {
            assert(target.take(line_count as int) == target) by {
                assert(target.len() == line_count);
            }
        }
        assert(csv_text(built) == text@);
        assert forall|other: Seq<Seq<i32>>| #[trigger] csv_decodable(other, name@, arity as nat, text@) implies other == built by {
            lemma_csv_text_injective(other, built);
        }
    }
    RelationData::new(name.clone(), arity, rows)
}

/// A `String` holding the given characters.
pub fn chars_to_string(chars: &Vec<char>) -> (r: String)
    ensures
        r@ == chars@,
{
    let mut s = String::new();
    for i in 0..chars.len()
        invariant
            s@ == chars@.take(i as int),
    {
        crate::text::push_char(&mut s, chars[i]);
        assert(chars@.take(i + 1) == chars@.take(i as int).push(chars@[i as int]));
    }
    assert(chars@.take(chars@.len() as int) == chars@);
    s
}

impl Dataset {
    /// A dataset read back from its manifest and relations, checked against the query.
    pub fn assemble(module: &CqModule, manifest: Manifest, relations: Vec<RelationData>) -> (r: Result<Self, DatasetError>)
        ensures
            r is Ok <==> (Dataset { manifest, relations }).valid_for(module),
            r matches Ok(d) ==> d.manifest == manifest && d.relations@ == relations@,
    {
        let dataset = Dataset { manifest, relations };
        dataset.validate(module)?;
        Ok(dataset)
    }
}

/// The CSV text of a canonical materialized result: rows of the given width,
/// strictly increasing, hence distinct.
pub fn encode_result_rows(rows: &Vec<Vec<i32>>, arity: usize) -> (r: Result<String, DatasetError>)
    ensures
        r is Ok <==> arity > 0 && rows_have_width(rows_view(rows@), arity as nat) && crate::rows::strictly_sorted(rows_view(rows@)),
        r matches Ok(text) ==> text@ == csv_text(rows_view(rows@)),
{
    let mut copy: Vec<Vec<i32>> = Vec::new();
    for i in 0..rows.len()
        invariant
            rows_view(copy@) == rows_view(rows@).take(i as int),
    {
        let ghost before = copy@;
        copy.push(clone_row(&rows[i]));
        assert(rows_view(copy@) =~= rows_view(before).push(rows@[i as int]@));
        assert(rows_view(rows@).take(i + 1) =~= rows_view(rows@).take(i as int).push(rows@[i as int]@));
    }
    assert(rows_view(rows@).take(rows@.len() as int) == rows_view(rows@));
    proof {
        reveal_strlit("result");
        assert(relation_name_ok("result"@));
    }
    let relation = RelationData::new(String::from_str("result"), arity, copy)?;
    validate_materialized_result(&relation.rows)?;
    Ok(encode_csv(&relation))
}

/// Reads a canonical materialized result with the query head's known arity.
pub fn decode_result_rows(path: &String, arity: usize, text: &str) -> (r: Result<Vec<Vec<i32>>, DatasetError>)
    ensures
        r matches Ok(rows) ==> csv_text(rows_view(rows@)) == text@ && rows_have_width(rows_view(rows@), arity as nat)
            && crate::rows::strictly_sorted(rows_view(rows@)),
        forall|rows: Seq<Seq<i32>>|
            #[trigger] csv_text(rows) == text@ && arity > 0 && rows_have_width(rows, arity as nat) && crate::rows::strictly_sorted(rows) ==> (r matches Ok(v)
                && rows_view(v@) == rows),
{
    let name = String::from_str("result");
    proof {
        reveal_strlit("result");
        assert(relation_name_ok("result"@));
        assert forall|rows: Seq<Seq<i32>>| #[trigger] csv_text(rows) == text@ && arity > 0 && rows_have_width(rows, arity as nat) implies csv_decodable(rows, name@, arity as nat, text@) by {}
    }
    let relation = decode_csv(path, &name, arity, text)?;
    validate_materialized_result(&relation.rows)?;
    Ok(relation.rows)
}

/// Reading back what was written gives the same rows: a well-formed
/// relation's CSV text decodes, under its name and arity, to exactly its rows.
pub proof fn csv_round_trip(relation: RelationData)
    requires
        relation.well_formed(),
    ensures
        csv_decodable(relation.rows_spec(), relation.name@, relation.arity as nat, csv_text(relation.rows_spec())),
{
}

/// Number of distinct rows never exceeds the number of rows.
proof fn lemma_distinct_at_most_raw(rows: Seq<Seq<i32>>)
    ensures
        distinct_count(rows) <= rows.len(),
{
    rows.lemma_cardinality_of_set();
}

/// A valid dataset's manifest can be written and read back, and each
/// relation's CSV decodes, under the name and arity its manifest entry
/// records, to exactly its rows.
pub proof fn dataset_round_trip(dataset: Dataset, module: CqModule)
    requires
        dataset.valid_for(&module),
    ensures
        crate::manifest::manifest_encodable(dataset.manifest),
        forall|i: int|
            0 <= i < dataset.relations@.len() ==> csv_decodable(
                (#[trigger] dataset.relations@[i]).rows_spec(),
                dataset.manifest.relations@[i].name@,
                dataset.manifest.relations@[i].arity as nat,
                csv_text(dataset.relations@[i].rows_spec()),
            ),
{
    assert forall|i: int| 0 <= i < dataset.manifest.relations@.len() implies {
        &&& relation_name_ok((#[trigger] dataset.manifest.relations@[i]).name@)
        &&& dataset.manifest.relations@[i].distinct_rows <= dataset.manifest.relations@[i].raw_rows
    } by {
        assert(records(dataset.manifest.relations@[i], dataset.relations@[i]));
        assert(dataset.relations@[i].well_formed());
        lemma_distinct_at_most_raw(dataset.relations@[i].rows_spec());
    }
    assert forall|i: int| 0 <= i < dataset.relations@.len() implies csv_decodable(
        (#[trigger] dataset.relations@[i]).rows_spec(),
        dataset.manifest.relations@[i].name@,
        dataset.manifest.relations@[i].arity as nat,
        csv_text(dataset.relations@[i].rows_spec()),
    ) by {
        assert(records(dataset.manifest.relations@[i], dataset.relations@[i]));
        assert(dataset.relations@[i].well_formed());
    }
}

/// The count of empty relations depends only on how many rows each holds.
proof fn lemma_empty_relations_same(a: Seq<RelationData>, b: Seq<RelationData>)
    requires
        a.len() == b.len(),
        forall|i: int| 0 <= i < a.len() ==> (#[trigger] a[i]).rows@.len() == b[i].rows@.len(),
    ensures
        empty_relations(a) == empty_relations(b),
    decreases a.len(),
{
    if a.len() > 0 {
        let (x, y) = (a.drop_last(), b.drop_last());
        assert forall|i: int| 0 <= i < x.len() implies (#[trigger] x[i]).rows@.len() == y[i].rows@.len() by {
            assert(x[i] == a[i] && y[i] == b[i]);
        }
        lemma_empty_relations_same(x, y);
        assert(a.last().rows@.len() == b.last().rows@.len());
    }
}

/// Reading back a written dataset gives it back: a manifest read back as the
/// same values, with each relation read back under its manifest entry to the
/// same rows in the same order, is again a dataset valid for the query, so
/// `Dataset::assemble` accepts it.
pub proof fn read_back_dataset_is_valid(written: Dataset, read: Dataset, module: CqModule)
    requires
        written.valid_for(&module),
        crate::manifest::same_manifest(read.manifest, written.manifest),
        read.relations@.len() == written.relations@.len(),
        forall|i: int|
            0 <= i < read.relations@.len() ==> (#[trigger] read.relations@[i]).name@ == read.manifest.relations@[i].name@
                && read.relations@[i].arity == read.manifest.relations@[i].arity
                && read.relations@[i].rows_spec() == written.relations@[i].rows_spec(),
    ensures
        read.valid_for(&module),
{
    let (w, r) = (written.relations@, read.relations@);
    assert forall|i: int| 0 <= i < r.len() implies (#[trigger] r[i]).rows@.len() == w[i].rows@.len() by {
        assert(r[i].rows_spec().len() == r[i].rows@.len());
        assert(w[i].rows_spec().len() == w[i].rows@.len());
    }
    assert forall|i: int| 0 <= i < r.len() implies {
        &&& (#[trigger] r[i]).well_formed()
        &&& r[i].name@ == module.inputs@[i].name@
        &&& r[i].arity == module.inputs@[i].arity
        &&& records(read.manifest.relations@[i], r[i])
    } by {
        assert(records(written.manifest.relations@[i], w[i]));
        assert(crate::manifest::same_cardinality(read.manifest.relations@[i], written.manifest.relations@[i]));
        assert(w[i].well_formed());
        assert(r[i].rows_spec().len() == r[i].rows@.len());
        assert(w[i].rows_spec().len() == w[i].rows@.len());
    }
    lemma_empty_relations_same(r, w);
}

} // verus!
