//! Decisions of the workload command line: which cases, scale and scenarios
//! a command covers, where each artifact lives relative to the repository
//! root, when a scenario is skipped, how two result row lists are compared,
//! and how the rows a generated program prints are read.

use vstd::prelude::*;

use crate::catalog::{case_names, classic_names, retail_names};
use crate::generate::{scenario_admitted, GenerateError};
use crate::rows::rows_view;
use crate::text::{push_str, str_equal};
use crate::{GenerationConfig, QueryCase, Scale, Scenario};

verus! {

/// Why a workload command was refused.
#[derive(Debug)]
pub enum TaskError {
    /// The selection is neither `all`, a suite, nor a catalog case.
    UnknownSelection(String),
    UnknownScale(String),
    UnknownScenario(String),
    RepeatedScenario,
    MissingScenarioValue,
    RepeatedWrite,
    UnknownOption(String),
    /// The third positional argument.
    UnexpectedArgument(String),
    /// The scenario was requested by name but the case cannot exhibit it.
    ScenarioNotApplicable { scenario: Scenario, case: &'static str, reason: &'static str },
    Generate(GenerateError),
}

impl TaskError {
    /// The sentence that reports the error.
    pub open spec fn message_text(&self) -> Seq<char> {
        match self {
            TaskError::UnknownSelection(name) => "unknown suite or case `"@ + name@ + "`"@,
            TaskError::UnknownScale(value) => "unknown scale `"@ + value@ + "`; expected tiny, medium, or large"@,
            TaskError::UnknownScenario(value) => "unknown scenario `"@ + value@
                + "`; expected coverage, empty-input, no-match, or all"@,
            TaskError::RepeatedScenario => "`--scenario` may be provided only once"@,
            TaskError::MissingScenarioValue => "`--scenario` requires a scenario name"@,
            TaskError::RepeatedWrite => "`--write` may be provided only once"@,
            TaskError::UnknownOption(option) => "unknown option `"@ + option@ + "`"@,
            TaskError::UnexpectedArgument(value) => "unexpected argument `"@ + value@ + "`; expected at most a selection and scale"@,
            TaskError::ScenarioNotApplicable { scenario, case, reason } => "scenario `"@ + scenario.name_spec()
                + "` is not applicable to `"@ + case@ + "`: "@ + reason@
                + "; use `--scenario all` to skip mathematically unavailable combinations"@,
            TaskError::Generate(error) => error.message_text(),
        }
    }

    /// The sentence that reports the error.
    pub fn message(&self) -> (r: String)
        ensures
            r@ == self.message_text(),
    {
        let mut out = String::new();
        match self {
            TaskError::UnknownSelection(name) => {
                push_str(&mut out, "unknown suite or case `");
                push_str(&mut out, name.as_str());
                push_str(&mut out, "`");
            },
            TaskError::UnknownScale(value) => {
                push_str(&mut out, "unknown scale `");
                push_str(&mut out, value.as_str());
                push_str(&mut out, "`; expected tiny, medium, or large");
            },
            TaskError::UnknownScenario(value) => {
                push_str(&mut out, "unknown scenario `");
                push_str(&mut out, value.as_str());
                push_str(&mut out, "`; expected coverage, empty-input, no-match, or all");
            },
            TaskError::RepeatedScenario => push_str(&mut out, "`--scenario` may be provided only once"),
            TaskError::MissingScenarioValue => push_str(&mut out, "`--scenario` requires a scenario name"),
            TaskError::RepeatedWrite => push_str(&mut out, "`--write` may be provided only once"),
            TaskError::UnknownOption(option) => {
                push_str(&mut out, "unknown option `");
                push_str(&mut out, option.as_str());
                push_str(&mut out, "`");
            },
            TaskError::UnexpectedArgument(value) => {
                push_str(&mut out, "unexpected argument `");
                push_str(&mut out, value.as_str());
                push_str(&mut out, "`; expected at most a selection and scale");
            },
            TaskError::ScenarioNotApplicable { scenario, case, reason } => {
                push_str(&mut out, "scenario `");
                push_str(&mut out, scenario.as_str());
                push_str(&mut out, "` is not applicable to `");
                push_str(&mut out, case);
                push_str(&mut out, "`: ");
                push_str(&mut out, reason);
                push_str(&mut out, "; use `--scenario all` to skip mathematically unavailable combinations");
            },
            TaskError::Generate(error) => {
                let text = error.message();
                push_str(&mut out, text.as_str());
            },
        }
        assert(out@ =~= self.message_text());
        out
    }
}

/// Which catalog cases a command covers.
#[derive(Clone, Copy, Debug)]
pub enum Selection {
    All,
    /// A suite by its name, `classic` or `retail`.
    Suite(&'static str),
    Case(QueryCase),
}

/// The selection that a command-line word denotes.
pub open spec fn selects(s: Selection, word: Seq<char>) -> bool {
    if word == "all"@ {
        s is All
    } else if word == "classic"@ {
        s matches Selection::Suite(n) && n@ == "classic"@
    } else if word == "retail"@ {
        s matches Selection::Suite(n) && n@ == "retail"@
    } else {
        s matches Selection::Case(c) && c.name@ == word
    }
}

/// A word names a selection.
pub open spec fn selection_word(word: Seq<char>) -> bool {
    word == "all"@ || word == "classic"@ || word == "retail"@ || crate::all_names().contains(word)
}

proof fn lemma_distinct_words()
    ensures
        "all"@ != "classic"@,
        "all"@ != "retail"@,
        "classic"@ != "retail"@,
{
    reveal_strlit("all");
    reveal_strlit("classic");
    reveal_strlit("retail");
    assert("all"@[0] != "classic"@[0]);
    assert("all"@[0] != "retail"@[0]);
    assert("classic"@[0] != "retail"@[0]);
}

impl Selection {
    /// The cases that a command-line word selects: all, a suite, or one case.
    pub fn parse(value: &str) -> (r: Result<Selection, TaskError>)
        ensures
            r matches Ok(s) ==> selects(s, value@),
            r is Ok <==> selection_word(value@),
            r matches Err(e) ==> e matches TaskError::UnknownSelection(n) && n@ == value@,
    {
        proof {
            lemma_distinct_words();
        }
        if str_equal(value, "all") {
            Ok(Selection::All)
        } else if str_equal(value, "classic") {
            Ok(Selection::Suite("classic"))
        } else if str_equal(value, "retail") {
            Ok(Selection::Suite("retail"))
        } else {
            match crate::case(value) {
                Some(c) => Ok(Selection::Case(c)),
                None => Err(TaskError::UnknownSelection(value.to_string())),
            }
        }
    }

    /// The selected cases in catalog order.
    pub fn cases(self) -> (r: Vec<QueryCase>)
        ensures
            self is All ==> case_names(r@) == crate::all_names()
                && crate::catalog::case_programs(r@) == crate::catalog::classic_programs() + crate::catalog::retail_programs(),
            self matches Selection::Suite(n) ==> case_names(r@) == (if n@ == "classic"@ {
                classic_names()
            } else if n@ == "retail"@ {
                retail_names()
            } else {
                Seq::empty()
            }),
            self matches Selection::Suite(n) ==> crate::catalog::case_programs(r@) == (if n@ == "classic"@ {
                crate::catalog::classic_programs()
            } else if n@ == "retail"@ {
                crate::catalog::retail_programs()
            } else {
                Seq::empty()
            }),
            self matches Selection::Case(c) ==> r@ == seq![c],
    {
        proof {
            lemma_distinct_words();
        }
        match self {
            Selection::All => crate::catalog::all(),
            Selection::Suite(name) => match crate::catalog::named(name) {
                Some(cases) => cases,
                None => {
                    let v: Vec<QueryCase> = Vec::new();
                    assert(case_names(v@) =~= Seq::empty());
                    assert(crate::catalog::case_programs(v@) =~= Seq::empty());
                    v
                },
            },
            Selection::Case(c) => {
                let mut v: Vec<QueryCase> = Vec::new();
                v.push(c);
                v
            },
        }
    }
}

/// Which scenarios a command covers.
#[derive(Clone, Copy, Debug, PartialEq, Eq, Structural)]
pub enum ScenarioSelection {
    All,
    One(Scenario),
}

/// The scenario selection that a `--scenario` value denotes.
pub open spec fn scenario_word(word: Seq<char>) -> Option<ScenarioSelection> {
    if word == "all"@ {
        Some(ScenarioSelection::All)
    } else if word == Scenario::Coverage.name_spec() {
        Some(ScenarioSelection::One(Scenario::Coverage))
    } else if word == Scenario::EmptyInput.name_spec() {
        Some(ScenarioSelection::One(Scenario::EmptyInput))
    } else if word == Scenario::NoMatch.name_spec() {
        Some(ScenarioSelection::One(Scenario::NoMatch))
    } else {
        None
    }
}

/// The scale that a command-line word denotes.
pub open spec fn scale_word(word: Seq<char>) -> Option<Scale> {
    if word == Scale::Tiny.name_spec() {
        Some(Scale::Tiny)
    } else if word == Scale::Medium.name_spec() {
        Some(Scale::Medium)
    } else if word == Scale::Large.name_spec() {
        Some(Scale::Large)
    } else {
        None
    }
}

/// Every scale's name reads back as that scale.
pub proof fn scale_names_read_back(scale: Scale)
    ensures
        scale_word(scale.name_spec()) == Some(scale),
{
    reveal_strlit("tiny");
    reveal_strlit("medium");
    reveal_strlit("large");
    assert("tiny"@[0] != "medium"@[0] && "tiny"@[0] != "large"@[0] && "medium"@[0] != "large"@[0]);
}

/// Every scenario's name reads back as the selection of that one scenario.
pub proof fn scenario_names_read_back(scenario: Scenario)
    ensures
        scenario_word(scenario.name_spec()) == Some(ScenarioSelection::One(scenario)),
{
    reveal_strlit("all");
    reveal_strlit("coverage");
    reveal_strlit("empty-input");
    reveal_strlit("no-match");
    assert("all"@[0] != "coverage"@[0] && "all"@[0] != "empty-input"@[0] && "all"@[0] != "no-match"@[0]);
    assert("coverage"@[0] != "empty-input"@[0] && "coverage"@[0] != "no-match"@[0] && "empty-input"@[0] != "no-match"@[0]);
}

impl ScenarioSelection {
    /// The scenarios that a `--scenario` value names.
    pub fn parse(value: &str) -> (r: Result<ScenarioSelection, TaskError>)
        ensures
            r matches Ok(s) ==> scenario_word(value@) == Some(s),
            r is Err ==> scenario_word(value@) is None,
            r matches Err(e) ==> e matches TaskError::UnknownScenario(n) && n@ == value@,
    {
        if str_equal(value, "all") {
            Ok(ScenarioSelection::All)
        } else if str_equal(value, "coverage") {
            Ok(ScenarioSelection::One(Scenario::Coverage))
        } else if str_equal(value, "empty-input") {
            Ok(ScenarioSelection::One(Scenario::EmptyInput))
        } else if str_equal(value, "no-match") {
            Ok(ScenarioSelection::One(Scenario::NoMatch))
        } else {
            Err(TaskError::UnknownScenario(value.to_string()))
        }
    }

    /// The selected scenarios in their stable order.
    pub fn values(self) -> (r: Vec<Scenario>)
        ensures
            self is All ==> r@ == seq![Scenario::Coverage, Scenario::EmptyInput, Scenario::NoMatch],
            self matches ScenarioSelection::One(s) ==> r@ == seq![s],
    {
        let mut v: Vec<Scenario> = Vec::new();
        match self {
            ScenarioSelection::All => {
                v.push(Scenario::Coverage);
                v.push(Scenario::EmptyInput);
                v.push(Scenario::NoMatch);
            },
            ScenarioSelection::One(s) => {
                v.push(s);
            },
        }
        v
    }

    /// Only `--scenario all` may skip a scenario a case cannot exhibit.
    pub fn allows_inapplicable(self) -> (r: bool)
        ensures
            r == (self is All),
    {
        match self {
            ScenarioSelection::All => true,
            ScenarioSelection::One(_) => false,
        }
    }
}

/// The scale that a command-line word names.
pub fn parse_scale(value: &str) -> (r: Result<Scale, TaskError>)
    ensures
        r matches Ok(s) ==> scale_word(value@) == Some(s),
        r is Err ==> scale_word(value@) is None,
        r matches Err(e) ==> e matches TaskError::UnknownScale(n) && n@ == value@,
{
    if str_equal(value, "tiny") {
        Ok(Scale::Tiny)
    } else if str_equal(value, "medium") {
        Ok(Scale::Medium)
    } else if str_equal(value, "large") {
        Ok(Scale::Large)
    } else {
        Err(TaskError::UnknownScale(value.to_string()))
    }
}

/// The reproducible configuration of one case, scenario and scale.
pub fn generation_config(case: &QueryCase, scenario: Scenario, scale: Scale) -> (r: GenerationConfig)
    ensures
        r.scenario == scenario,
        r.scale == scale,
        r.seed == crate::fnv1a(vstd::string::StringSliceAdditionalSpecFns::spec_bytes(case.name)),
{
    GenerationConfig { scenario, scale, seed: crate::seed_for(case) }
}

/// `workloads/data/SUITE/CASE/SCENARIO/SCALE`, relative to the repository root.
pub open spec fn data_directory_spec(case: QueryCase, scenario: Scenario, scale: Scale) -> Seq<char> {
    "workloads/data/"@ + case.suite.name_spec() + "/"@ + case.name@ + "/"@ + scenario.name_spec() + "/"@
        + scale.name_spec()
}

/// `workloads/golden/SUITE/CASE/SCENARIO/SCALE.csv`, relative to the repository root.
pub open spec fn golden_path_spec(case: QueryCase, scenario: Scenario, scale: Scale) -> Seq<char> {
    "workloads/golden/"@ + case.suite.name_spec() + "/"@ + case.name@ + "/"@ + scenario.name_spec() + "/"@
        + scale.name_spec() + ".csv"@
}

/// `workloads/sql/SUITE/CASE.sql`, relative to the repository root.
pub open spec fn sql_path_spec(case: QueryCase) -> Seq<char> {
    "workloads/sql/"@ + case.suite.name_spec() + "/"@ + case.name@ + ".sql"@
}

/// Where one generated dataset lives.
pub fn data_directory(case: &QueryCase, scenario: Scenario, scale: Scale) -> (r: String)
    ensures
        r@ == data_directory_spec(*case, scenario, scale),
{
    let mut path = String::new();
    push_str(&mut path, "workloads/data/");
    push_str(&mut path, case.suite.as_str());
    push_str(&mut path, "/");
    push_str(&mut path, case.name);
    push_str(&mut path, "/");
    push_str(&mut path, scenario.as_str());
    push_str(&mut path, "/");
    push_str(&mut path, scale.as_str());
    assert(path@ =~= data_directory_spec(*case, scenario, scale));
    path
}

/// Where the checked answer of one dataset lives.
pub fn golden_path(case: &QueryCase, scenario: Scenario, scale: Scale) -> (r: String)
    ensures
        r@ == golden_path_spec(*case, scenario, scale),
{
    let mut path = String::new();
    push_str(&mut path, "workloads/golden/");
    push_str(&mut path, case.suite.as_str());
    push_str(&mut path, "/");
    push_str(&mut path, case.name);
    push_str(&mut path, "/");
    push_str(&mut path, scenario.as_str());
    push_str(&mut path, "/");
    push_str(&mut path, scale.as_str());
    push_str(&mut path, ".csv");
    assert(path@ =~= golden_path_spec(*case, scenario, scale));
    path
}

/// Where the SQL translation of one case lives; it does not vary by scenario.
pub fn sql_path(case: &QueryCase) -> (r: String)
    ensures
        r@ == sql_path_spec(*case),
{
    let mut path = String::new();
    push_str(&mut path, "workloads/sql/");
    push_str(&mut path, case.suite.as_str());
    push_str(&mut path, "/");
    push_str(&mut path, case.name);
    push_str(&mut path, ".sql");
    assert(path@ =~= sql_path_spec(*case));
    path
}

/// The position of the first row on which two row lists differ: the first
/// index holding different rows, or the shorter length.
pub open spec fn first_mismatch(left: Seq<Seq<i32>>, right: Seq<Seq<i32>>, p: int) -> bool {
    &&& 0 <= p <= left.len()
    &&& p <= right.len()
    &&& forall|k: int| 0 <= k < p ==> left[k] == right[k]
    &&& p < left.len() && p < right.len() ==> left[p] != right[p]
    &&& (p == left.len() || p == right.len() || left[p] != right[p])
}

/// `Ok` when both lists hold the same rows in the same order; else the
/// position of the first mismatch.
pub fn compare_rows(left: &Vec<Vec<i32>>, right: &Vec<Vec<i32>>) -> (r: Result<(), usize>)
    ensures
        r is Ok <==> rows_view(left@) == rows_view(right@),
        r matches Err(p) ==> first_mismatch(rows_view(left@), rows_view(right@), p as int),
{
    let ghost lv = rows_view(left@);
    let ghost rv = rows_view(right@);
    let n = if left.len() < right.len() { left.len() } else { right.len() };
    let mut i: usize = 0;
    while i < n
        invariant
            lv == rows_view(left@),
            rv == rows_view(right@),
            n <= left.len(),
            n <= right.len(),
            n == left.len() || n == right.len(),
            i <= n,
            forall|k: int| 0 <= k < i ==> lv[k] == rv[k],
        decreases n - i,
    {
        if !crate::text::ints_equal(&left[i], &right[i]) {
            assert(lv[i as int] != rv[i as int]);
            return Err(i);
        }
        i = i + 1;
    }
    if left.len() == right.len() {
        assert(lv =~= rv);
        Ok(())
    } else {
        assert(lv.len() != rv.len());
        Err(n)
    }
}

/// What `check_or_skip_scenario` answers for a query.
pub open spec fn skip_outcome(
    module: crate::model::CqModule,
    scenario: Scenario,
    allow_inapplicable: bool,
    r: Result<bool, TaskError>,
) -> bool {
    let admitted = scenario_admitted(module, scenario);
    let known = crate::analysis::first_unknown(module.body@, module.inputs@) == module.body@.len();
    &&& (r matches Ok(run) ==> (run == admitted))
    &&& (r matches Ok(false) ==> scenario == Scenario::NoMatch && allow_inapplicable)
    &&& (scenario != Scenario::NoMatch ==> ((r matches Ok(true)) <==> admitted))
    &&& (scenario != Scenario::NoMatch && !admitted ==> (r matches Err(TaskError::Generate(_))))
    &&& (scenario == Scenario::NoMatch && known && admitted ==> (r matches Ok(true)))
    &&& (scenario == Scenario::NoMatch && known && !admitted && allow_inapplicable ==> (r matches Ok(false)))
    &&& (scenario == Scenario::NoMatch && known && !admitted && !allow_inapplicable
        ==> (r matches Err(TaskError::ScenarioNotApplicable { .. })))
}

/// `Ok(true)` when the case admits the scenario, `Ok(false)` when it does
/// not and `--scenario all` lets it be skipped; an error otherwise.
pub fn check_or_skip_scenario(case: &QueryCase, scenario: Scenario, allow_inapplicable: bool) -> (r: Result<bool, TaskError>)
    ensures
        exists|m: crate::model::CqModule|
            crate::catalog::module_view(m) == case.program.module_spec()
            && #[trigger] skip_outcome(m, scenario, allow_inapplicable, r),
{
    let module = case.module();
    let checked = crate::generate::check_module_scenario(&module, scenario);
    let r = match checked {
        Ok(()) => Ok(true),
        Err(GenerateError::ScenarioNotApplicable { scenario: s, reason }) => {
            if allow_inapplicable {
                Ok(false)
            } else {
                Err(TaskError::ScenarioNotApplicable { scenario: s, case: case.name, reason })
            }
        },
        Err(e) => Err(TaskError::Generate(e)),
    };
    assert(skip_outcome(module, scenario, allow_inapplicable, r));
    r
}

/// The flags and positional words read so far.
pub struct ScanState {
    pub positional: Seq<Seq<char>>,
    pub scenarios: Option<ScenarioSelection>,
    pub write: bool,
}

/// Why the arguments were refused while they were read.
pub enum ArgFault {
    RepeatedScenario,
    MissingScenarioValue,
    UnknownScenario(Seq<char>),
    RepeatedWrite,
    UnknownOption(Seq<char>),
}

/// What reading the command options has seen so far.
pub enum Scan {
    Done(ScanState),
    Fault(ArgFault),
}

/// Reads the arguments from position `i` on, in order: `--scenario VALUE`
/// at most once, `--write` at most once where it is allowed, no other word
/// that starts with `-`, and positional words.
pub open spec fn scan_options(args: Seq<Seq<char>>, allow_write: bool, i: int, st: ScanState) -> Scan
    decreases args.len() - i,
{
    if i < 0 || i >= args.len() {
        Scan::Done(st)
    } else {
        let a = args[i];
        if a == "--scenario"@ {
            if st.scenarios is Some {
                Scan::Fault(ArgFault::RepeatedScenario)
            } else if i + 1 >= args.len() {
                Scan::Fault(ArgFault::MissingScenarioValue)
            } else {
                match scenario_word(args[i + 1]) {
                    None => Scan::Fault(ArgFault::UnknownScenario(args[i + 1])),
                    Some(sel) => scan_options(
                        args,
                        allow_write,
                        i + 2,
                        ScanState { positional: st.positional, scenarios: Some(sel), write: st.write },
                    ),
                }
            }
        } else if a == "--write"@ && allow_write {
            if st.write {
                Scan::Fault(ArgFault::RepeatedWrite)
            } else {
                scan_options(
                    args,
                    allow_write,
                    i + 1,
                    ScanState { positional: st.positional, scenarios: st.scenarios, write: true },
                )
            }
        } else if a.len() > 0 && a[0] == '-' {
            Scan::Fault(ArgFault::UnknownOption(a))
        } else {
            scan_options(
                args,
                allow_write,
                i + 1,
                ScanState { positional: st.positional.push(a), scenarios: st.scenarios, write: st.write },
            )
        }
    }
}

/// Nothing read yet.
pub open spec fn start_scan() -> ScanState {
    ScanState { positional: Seq::empty(), scenarios: None, write: false }
}

/// The error that reports a fault in the command options.
pub open spec fn fault_is(e: TaskError, f: ArgFault) -> bool {
    match f {
        ArgFault::RepeatedScenario => e is RepeatedScenario,
        ArgFault::MissingScenarioValue => e is MissingScenarioValue,
        ArgFault::UnknownScenario(w) => e matches TaskError::UnknownScenario(n) && n@ == w,
        ArgFault::RepeatedWrite => e is RepeatedWrite,
        ArgFault::UnknownOption(w) => e matches TaskError::UnknownOption(n) && n@ == w,
    }
}

/// The options of `generate`, `golden` and `differential`.
#[derive(Debug)]
pub struct CommandOptions {
    pub selection: Selection,
    pub scale: Scale,
    pub scenarios: ScenarioSelection,
    /// `--write`: only the golden command accepts it.
    pub write: bool,
}

/// What parsing `args` gives: the first refusal in argument order, then at
/// most two positional words (selection, default `all`; scale, default
/// `tiny`), the scenarios defaulting to coverage.
pub open spec fn options_outcome(args: Seq<Seq<char>>, allow_write: bool, r: Result<CommandOptions, TaskError>) -> bool {
    match scan_options(args, allow_write, 0, start_scan()) {
        Scan::Fault(f) => match r {
            Err(e) => fault_is(e, f),
            Ok(_) => false,
        },
        Scan::Done(st) => {
            let p = st.positional;
            let sel = if p.len() > 0 { p[0] } else { "all"@ };
            let sc = if p.len() > 1 { p[1] } else { "tiny"@ };
            if p.len() > 2 {
                r matches Err(TaskError::UnexpectedArgument(a)) && a@ == p[2]
            } else if !selection_word(sel) {
                r matches Err(TaskError::UnknownSelection(n)) && n@ == sel
            } else if scale_word(sc) is None {
                r matches Err(TaskError::UnknownScale(n)) && n@ == sc
            } else {
                &&& r matches Ok(o)
                &&& selects(o.selection, sel)
                &&& scale_word(sc) == Some(o.scale)
                &&& o.scenarios == (match st.scenarios {
                    Some(s) => s,
                    None => ScenarioSelection::One(Scenario::Coverage),
                })
                &&& o.write == st.write
            }
        },
    }
}

/// Whether the word starts with `-`.
pub(crate) fn is_option_word(word: &str) -> (r: bool)
    ensures
        r == (word@.len() > 0 && word@[0] == '-'),
{
    let chars = crate::text::chars_of(word);
    chars.len() > 0 && chars[0] == '-'
}

impl CommandOptions {
    /// The options of a `generate` or `golden` command line.
    pub fn parse(arguments: Vec<String>, allow_write: bool) -> (r: Result<CommandOptions, TaskError>)
        ensures
            options_outcome(crate::model::names_view(arguments@), allow_write, r),
    {
        let ghost args = crate::model::names_view(arguments@);
        let mut positional: Vec<String> = Vec::new();
        let mut scenarios: Option<ScenarioSelection> = None;
        let mut write = false;
        let mut i: usize = 0;
        assert(crate::model::names_view(positional@) =~= Seq::<Seq<char>>::empty());
        while i < arguments.len()
            invariant
                args == crate::model::names_view(arguments@),
                i <= arguments.len(),
                scan_options(args, allow_write, 0, start_scan()) == scan_options(
                    args,
                    allow_write,
                    i as int,
                    ScanState { positional: crate::model::names_view(positional@), scenarios, write },
                ),
            decreases arguments.len() - i,
        {
            let ghost st = ScanState { positional: crate::model::names_view(positional@), scenarios, write };
            let argument = arguments[i].as_str();
            assert(argument@ == args[i as int]);
            if str_equal(argument, "--scenario") {
                if scenarios.is_some() {
                    return Err(TaskError::RepeatedScenario);
                }
                if i + 1 >= arguments.len() {
                    return Err(TaskError::MissingScenarioValue);
                }
                let value = arguments[i + 1].as_str();
                assert(value@ == args[i + 1]);
                let selected = ScenarioSelection::parse(value)?;
                scenarios = Some(selected);
                i = i + 2;
            } else if allow_write && str_equal(argument, "--write") {
                if write {
                    return Err(TaskError::RepeatedWrite);
                }
                write = true;
                i = i + 1;
            } else if is_option_word(argument) {
                return Err(TaskError::UnknownOption(argument.to_string()));
            } else {
                positional.push(argument.to_string());
                assert(crate::model::names_view(positional@) =~= st.positional.push(args[i as int]));
                i = i + 1;
            }
        }
        let ghost p = crate::model::names_view(positional@);
        if positional.len() > 2 {
            return Err(TaskError::UnexpectedArgument(positional[2].clone()));
        }
        let selection = if positional.len() > 0 {
            Selection::parse(positional[0].as_str())?
        } else {
            Selection::parse("all")?
        };
        let scale = if positional.len() > 1 {
            parse_scale(positional[1].as_str())?
        } else {
            parse_scale("tiny")?
        };
        let scenarios = match scenarios {
            Some(s) => s,
            None => ScenarioSelection::One(Scenario::Coverage),
        };
        Ok(CommandOptions { selection, scale, scenarios, write })
    }
}

/// Seconds a generated program may run at each scale.
pub fn execution_timeout_seconds(scale: Scale) -> (r: u64)
    ensures
        r == (match scale {
            Scale::Tiny => 10u64,
            Scale::Medium => 60u64,
            Scale::Large => 300u64,
        }),
{
    match scale {
        Scale::Tiny => 10,
        Scale::Medium => 60,
        Scale::Large => 300,
    }
}

/// Why a program's output was refused. `line` counts from 1.
#[derive(Debug)]
pub enum OutputError {
    NotAnInteger { line: usize, field: String },
    ColumnCount { line: usize, found: usize, expected: usize },
}

/// Why output text was refused, by line number.
pub enum OutputFault {
    NotAnInteger(int, Seq<char>),
    ColumnCount(int, int),
}

/// The 32-bit value that `str::parse` reads from a field.
pub open spec fn i32_value(field: Seq<char>) -> Option<i32> {
    match crate::text::signed_literal_value(field) {
        Some(v) => if i32::MIN <= v <= i32::MAX {
            Some(v as i32)
        } else {
            None
        },
        None => None,
    }
}

/// The values of the fields, or the first field that is no 32-bit integer.
pub open spec fn field_values(fields: Seq<Seq<char>>) -> Result<Seq<i32>, Seq<char>>
    decreases fields.len(),
{
    if fields.len() == 0 {
        Ok(Seq::empty())
    } else {
        match field_values(fields.drop_last()) {
            Err(f) => Err(f),
            Ok(values) => match i32_value(fields.last()) {
                Some(v) => Ok(values.push(v)),
                None => Err(fields.last()),
            },
        }
    }
}

/// The rows of output lines of comma-separated integers, each of `arity`
/// values; else the first line that is not such a row.
pub open spec fn output_rows(lines: Seq<Seq<char>>, arity: nat) -> Result<Seq<Seq<i32>>, OutputFault>
    decreases lines.len(),
{
    if lines.len() == 0 {
        Ok(Seq::empty())
    } else {
        match output_rows(lines.drop_last(), arity) {
            Err(e) => Err(e),
            Ok(rows) => match field_values(crate::split::split_on(lines.last(), ',')) {
                Err(f) => Err(OutputFault::NotAnInteger(lines.len() as int, f)),
                Ok(values) => if values.len() == arity {
                    Ok(rows.push(values))
                } else {
                    Err(OutputFault::ColumnCount(lines.len() as int, values.len() as int))
                },
            },
        }
    }
}

/// Reads the rows a generated program printed: one line per row, fields
/// separated by commas, each read as `str::parse` reads an `i32`.
pub fn parse_output(arity: usize, text: &str) -> (r: Result<Vec<Vec<i32>>, OutputError>)
    ensures
        match output_rows(crate::split::text_lines(text@), arity as nat) {
            Ok(rows) => r matches Ok(v) && rows_view(v@) == rows,
            Err(OutputFault::NotAnInteger(line, field)) => r matches Err(OutputError::NotAnInteger { line: l, field: f })
                && l == line && f@ == field,
            Err(OutputFault::ColumnCount(line, found)) => r matches Err(OutputError::ColumnCount { line: l, found: n, expected })
                && l == line && n == found && expected == arity,
        },
{
    let lines = crate::split::lines_of(text);
    let ghost all = crate::split::text_lines(text@);
    let mut rows: Vec<Vec<i32>> = Vec::new();
    for i in 0..lines.len()
        invariant
            crate::model::names_view(lines@) == all,
            all == crate::split::text_lines(text@),
            output_rows(all.take(i as int), arity as nat) is Ok,
            rows_view(rows@) == output_rows(all.take(i as int), arity as nat)->Ok_0,
    {
        let ghost line = all[i as int];
        assert(all.take(i + 1).drop_last() == all.take(i as int));
        assert(all.take(i + 1).last() == line);
        let chars = crate::text::chars_of(lines[i].as_str());
        assert(chars@ == line);
        let fields = crate::split::split_chars(chars.as_slice(), ',');
        let ghost pieces = crate::split::split_on(line, ',');
        let mut values: Vec<i32> = Vec::new();
        for j in 0..fields.len()
            invariant
                crate::split::pieces_view(fields@) == pieces,
                pieces == crate::split::split_on(line, ','),
                i < lines.len(),
                crate::model::names_view(lines@) == all,
                all == crate::split::text_lines(text@),
                line == all[i as int],
                all.take(i + 1).drop_last() == all.take(i as int),
                all.take(i + 1).last() == line,
                output_rows(all.take(i as int), arity as nat) is Ok,
                field_values(pieces.take(j as int)) is Ok,
                values@ == field_values(pieces.take(j as int))->Ok_0,
        {
            assert(pieces.take(j + 1).drop_last() == pieces.take(j as int));
            assert(pieces.take(j + 1).last() == fields@[j as int]@);
            match crate::text::read_i32(&fields[j]) {
                Some(v) => {
                    values.push(v);
                },
                None => {
                    proof {
                        assert(field_values(pieces.take(j + 1)) == Err::<Seq<i32>, Seq<char>>(fields@[j as int]@));
                        lemma_field_fault_stays(pieces, j as int + 1);
                        assert(output_rows(all.take(i + 1), arity as nat) == Err::<Seq<Seq<i32>>, OutputFault>(
                            OutputFault::NotAnInteger(i + 1, fields@[j as int]@),
                        ));
                        lemma_output_fault_stays(all, arity as nat, i as int + 1);
                    }
                    return Err(OutputError::NotAnInteger { line: i + 1, field: crate::dataset::chars_to_string(&fields[j]) });
                },
            }
        }
        assert(pieces.take(fields.len() as int) == pieces);
        if values.len() != arity {
            proof {
                assert(field_values(pieces) == Ok::<Seq<i32>, Seq<char>>(values@));
                assert(output_rows(all.take(i + 1), arity as nat) == Err::<Seq<Seq<i32>>, OutputFault>(
                    OutputFault::ColumnCount(i + 1, values@.len() as int),
                ));
                lemma_output_fault_stays(all, arity as nat, i as int + 1);
            }
            return Err(OutputError::ColumnCount { line: i + 1, found: values.len(), expected: arity });
        }
        let ghost before = rows@;
        rows.push(values);
        assert(rows_view(rows@) =~= rows_view(before).push(values@));
    }
    assert(all.take(lines.len() as int) == all);
    Ok(rows)
}

/// A refused field stays the first refusal of every longer list of fields.
proof fn lemma_field_fault_stays(fields: Seq<Seq<char>>, k: int)
    requires
        0 <= k <= fields.len(),
        field_values(fields.take(k)) is Err,
    ensures
        field_values(fields) == field_values(fields.take(k)),
    decreases fields.len() - k,
{
    if k < fields.len() {
        assert(fields.take(k + 1).drop_last() == fields.take(k));
        lemma_field_fault_stays(fields, k + 1);
    } else {
        assert(fields.take(k) == fields);
    }
}

/// A refused line stays the first refusal of every longer output.
proof fn lemma_output_fault_stays(lines: Seq<Seq<char>>, arity: nat, k: int)
    requires
        0 <= k <= lines.len(),
        output_rows(lines.take(k), arity) is Err,
    ensures
        output_rows(lines, arity) == output_rows(lines.take(k), arity),
    decreases lines.len() - k,
{
    if k < lines.len() {
        assert(lines.take(k + 1).drop_last() == lines.take(k));
        lemma_output_fault_stays(lines, arity, k + 1);
    } else {
        assert(lines.take(k) == lines);
    }
}

} // verus!
