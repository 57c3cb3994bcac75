//! The text of a compiler trace: which stages a trace request covers, the
//! file each stage is written to, the trace guide, the failure report, and
//! the line layout of rendered intermediate programs.

use vstd::prelude::*;

use crate::model::names_view;
use crate::split::{join_lines, join_with, lines_of, text_lines};
use crate::text::{push_char, push_str, str_equal};
use crate::catalog::{atom_view, decl_view, module_view, ModuleView};
use crate::model::{Atom, RelationDecl};
use crate::sql::{join_sep, lemma_join_sep_push};
use crate::text::{dec_nat, push_u64};
use crate::{QueryCase, QueryProgram};

verus! {

/// The name of the failure report in a trace directory.
pub const ERROR_FILE: &'static str = "ERROR.md";

/// The name of the trace guide in a trace directory.
pub const README_FILE: &'static str = "README.md";

/// One independently inspectable compiler boundary.
#[derive(Clone, Copy, Debug, PartialEq, Eq, Structural)]
pub enum Stage {
    Cq,
    RelationalPlan,
    IndexRequirements,
    RustAccessPlan,
    IteratorPipeline,
    FinalRust,
}

/// Why a trace request was refused.
#[derive(Debug)]
pub enum ExplainError {
    RepeatedThrough,
    MissingThroughValue,
    UnknownStage(String),
    UnknownOption(String),
    /// A second case name.
    UnexpectedArgument(String),
    MissingCase,
    UnknownCase(String),
}

impl ExplainError {
    /// The sentence that reports the error.
    pub open spec fn message_text(&self) -> Seq<char> {
        match self {
            ExplainError::RepeatedThrough => "`--through` may be provided only once"@,
            ExplainError::MissingThroughValue => "`--through` requires a stage name"@,
            ExplainError::UnknownStage(value) => "unknown explain stage `"@ + value@
                + "`; expected cq, relational-plan, index-requirements, rust-access-plan, iterator-pipeline, or final-rust"@,
            ExplainError::UnknownOption(option) => "unknown explain option `"@ + option@ + "`"@,
            ExplainError::UnexpectedArgument(value) => "unexpected explain argument `"@ + value@ + "`; expected exactly one case name"@,
            ExplainError::MissingCase => "`cargo xtask explain` requires a catalog case name"@,
            ExplainError::UnknownCase(name) => "unknown catalog case `"@ + name@ + "`"@,
        }
    }

    /// The sentence that reports the error.
    pub fn message(&self) -> (r: String)
        ensures
            r@ == self.message_text(),
    {
        let mut out = String::new();
        match self {
            ExplainError::RepeatedThrough => push_str(&mut out, "`--through` may be provided only once"),
            ExplainError::MissingThroughValue => push_str(&mut out, "`--through` requires a stage name"),
            ExplainError::UnknownStage(value) => {
                push_str(&mut out, "unknown explain stage `");
                push_str(&mut out, value.as_str());
                push_str(
                    &mut out,
                    "`; expected cq, relational-plan, index-requirements, rust-access-plan, iterator-pipeline, or final-rust",
                );
            },
            ExplainError::UnknownOption(option) => {
                push_str(&mut out, "unknown explain option `");
                push_str(&mut out, option.as_str());
                push_str(&mut out, "`");
            },
            ExplainError::UnexpectedArgument(value) => {
                push_str(&mut out, "unexpected explain argument `");
                push_str(&mut out, value.as_str());
                push_str(&mut out, "`; expected exactly one case name");
            },
            ExplainError::MissingCase => push_str(&mut out, "`cargo xtask explain` requires a catalog case name"),
            ExplainError::UnknownCase(name) => {
                push_str(&mut out, "unknown catalog case `");
                push_str(&mut out, name.as_str());
                push_str(&mut out, "`");
            },
        }
        assert(out@ =~= self.message_text());
        out
    }
}

impl Stage {
    /// Position in compiler order.
    pub open spec fn rank_spec(self) -> nat {
        match self {
            Stage::Cq => 0,
            Stage::RelationalPlan => 1,
            Stage::IndexRequirements => 2,
            Stage::RustAccessPlan => 3,
            Stage::IteratorPipeline => 4,
            Stage::FinalRust => 5,
        }
    }

    /// The stage's command-line name.
    pub open spec fn name_spec(self) -> Seq<char> {
        match self {
            Stage::Cq => "cq"@,
            Stage::RelationalPlan => "relational-plan"@,
            Stage::IndexRequirements => "index-requirements"@,
            Stage::RustAccessPlan => "rust-access-plan"@,
            Stage::IteratorPipeline => "iterator-pipeline"@,
            Stage::FinalRust => "final-rust"@,
        }
    }

    /// The file that holds the stage's artifact.
    pub open spec fn file_name_spec(self) -> Seq<char> {
        match self {
            Stage::Cq => "01-cq.rs"@,
            Stage::RelationalPlan => "02-relational-plan.rs"@,
            Stage::IndexRequirements => "03-index-requirements.rs"@,
            Stage::RustAccessPlan => "04-rust-access-plan.rs"@,
            Stage::IteratorPipeline => "05-iterator-pipeline.rs"@,
            Stage::FinalRust => "06-final-rust.rs"@,
        }
    }

    /// What the stage's artifact shows.
    pub open spec fn description_spec(self) -> Seq<char> {
        match self {
            Stage::Cq => "the complete source conjunctive query"@,
            Stage::RelationalPlan => "the complete named logical relational-algebra plan"@,
            Stage::IndexRequirements => "the logical plan plus its exact equality-index requirements"@,
            Stage::RustAccessPlan => "the complete staged Rust file containing one RustAccessPlan in `pull!`"@,
            Stage::IteratorPipeline => "the same staged Rust file after `pull!` exposes named lazy operators"@,
            Stage::FinalRust => "the complete ordinary Rust file after iterator lowering"@,
        }
    }

    /// Every stage in compiler order.
    pub fn all() -> (r: [Stage; 6])
        ensures
            r@ == seq![
                Stage::Cq,
                Stage::RelationalPlan,
                Stage::IndexRequirements,
                Stage::RustAccessPlan,
                Stage::IteratorPipeline,
                Stage::FinalRust,
            ],
            forall|k: int| 0 <= k < 6 ==> (#[trigger] r@[k]).rank_spec() == k,
    {
        [
            Stage::Cq,
            Stage::RelationalPlan,
            Stage::IndexRequirements,
            Stage::RustAccessPlan,
            Stage::IteratorPipeline,
            Stage::FinalRust,
        ]
    }

    /// The stage's position in compiler order.
    pub fn rank(self) -> (r: u8)
        ensures
            r == self.rank_spec(),
    {
        match self {
            Stage::Cq => 0,
            Stage::RelationalPlan => 1,
            Stage::IndexRequirements => 2,
            Stage::RustAccessPlan => 3,
            Stage::IteratorPipeline => 4,
            Stage::FinalRust => 5,
        }
    }

    /// The stage that a command-line name names.
    pub fn parse(value: &str) -> (r: Result<Stage, ExplainError>)
        ensures
            r matches Ok(s) ==> stage_word(value@) == Some(s),
            r is Err ==> stage_word(value@) is None,
            r matches Err(e) ==> e matches ExplainError::UnknownStage(n) && n@ == value@,
    {
        if str_equal(value, "cq") {
            Ok(Stage::Cq)
        } else if str_equal(value, "relational-plan") {
            Ok(Stage::RelationalPlan)
        } else if str_equal(value, "index-requirements") {
            Ok(Stage::IndexRequirements)
        } else if str_equal(value, "rust-access-plan") {
            Ok(Stage::RustAccessPlan)
        } else if str_equal(value, "iterator-pipeline") {
            Ok(Stage::IteratorPipeline)
        } else if str_equal(value, "final-rust") {
            Ok(Stage::FinalRust)
        } else {
            Err(ExplainError::UnknownStage(value.to_string()))
        }
    }

    /// The stage's command-line name.
    pub fn name(self) -> (r: &'static str)
        ensures
            r@ == self.name_spec(),
    {
        match self {
            Stage::Cq => "cq",
            Stage::RelationalPlan => "relational-plan",
            Stage::IndexRequirements => "index-requirements",
            Stage::RustAccessPlan => "rust-access-plan",
            Stage::IteratorPipeline => "iterator-pipeline",
            Stage::FinalRust => "final-rust",
        }
    }

    /// The file that holds the stage's artifact.
    pub fn file_name(self) -> (r: &'static str)
        ensures
            r@ == self.file_name_spec(),
    {
        match self {
            Stage::Cq => "01-cq.rs",
            Stage::RelationalPlan => "02-relational-plan.rs",
            Stage::IndexRequirements => "03-index-requirements.rs",
            Stage::RustAccessPlan => "04-rust-access-plan.rs",
            Stage::IteratorPipeline => "05-iterator-pipeline.rs",
            Stage::FinalRust => "06-final-rust.rs",
        }
    }

    /// What the stage's artifact shows.
    pub fn description(self) -> (r: &'static str)
        ensures
            r@ == self.description_spec(),
    {
        match self {
            Stage::Cq => "the complete source conjunctive query",
            Stage::RelationalPlan => "the complete named logical relational-algebra plan",
            Stage::IndexRequirements => "the logical plan plus its exact equality-index requirements",
            Stage::RustAccessPlan => "the complete staged Rust file containing one RustAccessPlan in `pull!`",
            Stage::IteratorPipeline => "the same staged Rust file after `pull!` exposes named lazy operators",
            Stage::FinalRust => "the complete ordinary Rust file after iterator lowering",
        }
    }
}

/// The stage that a `--through` value names.
pub open spec fn stage_word(word: Seq<char>) -> Option<Stage> {
    if word == Stage::Cq.name_spec() {
        Some(Stage::Cq)
    } else if word == Stage::RelationalPlan.name_spec() {
        Some(Stage::RelationalPlan)
    } else if word == Stage::IndexRequirements.name_spec() {
        Some(Stage::IndexRequirements)
    } else if word == Stage::RustAccessPlan.name_spec() {
        Some(Stage::RustAccessPlan)
    } else if word == Stage::IteratorPipeline.name_spec() {
        Some(Stage::IteratorPipeline)
    } else if word == Stage::FinalRust.name_spec() {
        Some(Stage::FinalRust)
    } else {
        None
    }
}

/// Every stage's name reads back as that stage.
pub proof fn stage_names_read_back(stage: Stage)
    ensures
        stage_word(stage.name_spec()) == Some(stage),
{
    reveal_strlit("cq");
    reveal_strlit("relational-plan");
    reveal_strlit("index-requirements");
    reveal_strlit("rust-access-plan");
    reveal_strlit("iterator-pipeline");
    reveal_strlit("final-rust");
    let names = seq![
        "cq"@,
        "relational-plan"@,
        "index-requirements"@,
        "rust-access-plan"@,
        "iterator-pipeline"@,
        "final-rust"@,
    ];
    assert forall|i: int, j: int| 0 <= i < j < 6 implies names[i] != names[j] by {
        if names[i][0] == names[j][0] {
            assert(names[i][1] != names[j][1]);
        }
    }
}

/// A line prefixed by the indentation, an empty line left empty.
pub open spec fn indented(line: Seq<char>, indentation: Seq<char>) -> Seq<char> {
    if line.len() == 0 {
        Seq::empty()
    } else {
        indentation + line
    }
}

/// Every nonempty line of `text` prefixed by `indentation`, joined by newlines.
pub open spec fn indent_lines_spec(text: Seq<char>, indentation: Seq<char>) -> Seq<char> {
    join_with(text_lines(text).map_values(|l: Seq<char>| indented(l, indentation)), '\n')
}

/// Prefixes every nonempty line of `text` with `indentation`; the lines are
/// joined by `\n` with no final line ending.
pub fn indent_lines(text: &str, indentation: &str) -> (r: String)
    ensures
        r@ == indent_lines_spec(text@, indentation@),
{
    let lines = lines_of(text);
    let ghost l = text_lines(text@);
    let mut out: Vec<String> = Vec::new();
    for k in 0..lines.len()
        invariant
            names_view(lines@) == l,
            names_view(out@) == l.map_values(|x: Seq<char>| indented(x, indentation@)).take(k as int),
    {
        let mut line = String::new();
        assert(lines@[k as int]@ == l[k as int]);
        if !lines[k].as_str().is_empty() {
            push_str(&mut line, indentation);
            push_str(&mut line, lines[k].as_str());
        }
        assert(line@ =~= indented(l[k as int], indentation@));
        let ghost before = out@;
        out.push(line);
        assert(names_view(out@) =~= names_view(before).push(line@));
        assert(l.map_values(|x: Seq<char>| indented(x, indentation@)).take(k + 1) =~= l.map_values(
            |x: Seq<char>| indented(x, indentation@),
        ).take(k as int).push(indented(l[k as int], indentation@)));
    }
    assert(l.map_values(|x: Seq<char>| indented(x, indentation@)).take(l.len() as int) =~= l.map_values(
        |x: Seq<char>| indented(x, indentation@),
    ));
    join_lines(&out)
}

/// `::mini_linq::NAME! {`, the body indented by four spaces, and `}`.
pub fn render_ir_macro(name: &str, body: &str) -> (r: String)
    ensures
        r@ == "::mini_linq::"@ + name@ + "! {\n"@ + indent_lines_spec(body@, "    "@) + "\n}\n"@,
{
    let indented_body = indent_lines(body, "    ");
    let mut out = String::new();
    push_str(&mut out, "::mini_linq::");
    push_str(&mut out, name);
    push_str(&mut out, "! {\n");
    push_str(&mut out, indented_body.as_str());
    push_str(&mut out, "\n}\n");
    assert(out@ =~= "::mini_linq::"@ + name@ + "! {\n"@ + indent_lines_spec(body@, "    "@) + "\n}\n"@);
    out
}

/// The length in bytes that `str::len` reports for the characters `s`:
/// the length of their UTF-8 encoding.
pub open spec fn utf8_len(s: Seq<char>) -> int {
    (vstd::utf8::encode_utf8(s).len() as usize) as int
}

/// One line `PREFIX EXPRESSION SUFFIX` when the expression has no line break
/// and the whole takes at most 92 bytes; else the prefix, every line of the
/// expression indented by four spaces, and the suffix, each on a line of its own.
pub open spec fn wrapped_lines(prefix: Seq<char>, expression: Seq<char>, suffix: Seq<char>) -> Seq<Seq<char>> {
    if !expression.contains('\n') && utf8_len(prefix) + utf8_len(expression) + utf8_len(suffix) <= 92 {
        seq![prefix + expression + suffix]
    } else {
        seq![prefix] + text_lines(expression).map_values(|l: Seq<char>| "    "@ + l) + seq![suffix]
    }
}

/// Whether `s` holds `c`.
fn has_char(s: &str, c: char) -> (r: bool)
    ensures
        r == s@.contains(c),
{
    let chars = crate::text::chars_of(s);
    for k in 0..chars.len()
        invariant
            chars@ == s@,
            forall|j: int| 0 <= j < k ==> chars@[j] != c,
    {
        if chars[k] == c {
            assert(s@[k as int] == c);
            return true;
        }
    }
    false
}

/// Lays an expression out between its prefix and suffix.
pub fn format_wrapped_expression(prefix: String, expression: String, suffix: String) -> (r: Vec<String>)
    ensures
        names_view(r@) == wrapped_lines(prefix@, expression@, suffix@),
{
    let a = prefix.as_str().len();
    let b = expression.as_str().len();
    let c = suffix.as_str().len();
    assert(a == utf8_len(prefix@) && b == utf8_len(expression@) && c == utf8_len(suffix@));
    let fits = !has_char(expression.as_str(), '\n') && a <= 92 && b <= 92 - a && c <= 92 - a - b;
    assert(fits == (!expression@.contains('\n') && utf8_len(prefix@) + utf8_len(expression@) + utf8_len(suffix@) <= 92));
    let mut out: Vec<String> = Vec::new();
    if fits {
        let mut line = String::new();
        push_str(&mut line, prefix.as_str());
        push_str(&mut line, expression.as_str());
        push_str(&mut line, suffix.as_str());
        out.push(line);
        assert(names_view(out@) =~= seq![prefix@ + expression@ + suffix@]);
    } else {
        out.push(prefix);
        let lines = lines_of(expression.as_str());
        let ghost l = text_lines(expression@);
        let ghost m = l.map_values(|x: Seq<char>| "    "@ + x);
        for k in 0..lines.len()
            invariant
                names_view(lines@) == l,
                m == l.map_values(|x: Seq<char>| "    "@ + x),
                names_view(out@) == seq![prefix@] + m.take(k as int),
        {
            let mut line = String::new();
            push_str(&mut line, "    ");
            push_str(&mut line, lines[k].as_str());
            assert(lines@[k as int]@ == l[k as int]);
            let ghost before = out@;
            out.push(line);
            assert(names_view(out@) =~= names_view(before).push(line@));
            assert(m.take(k + 1) =~= m.take(k as int).push(m[k as int]));
        }
        assert(m.take(lines.len() as int) =~= m);
        let ghost before = out@;
        out.push(suffix);
        assert(names_view(out@) =~= names_view(before).push(suffix@));
    }
    out
}

/// Lays an iterator source out as `format_wrapped_expression` does.
pub fn format_iterator_source(prefix: String, source: String, suffix: String) -> (r: Vec<String>)
    ensures
        names_view(r@) == wrapped_lines(prefix@, source@, suffix@),
{
    format_wrapped_expression(prefix, source, suffix)
}

/// The nested macros whose bodies a trace renders readably.
#[derive(Clone, Copy, Debug, PartialEq, Eq, Structural)]
pub enum NestedMacro {
    Pull,
    IteratorPipeline,
}

impl NestedMacro {
    /// The name of the macro.
    pub fn name(self) -> (r: &'static str)
        ensures
            r@ == (match self {
                NestedMacro::Pull => "pull"@,
                NestedMacro::IteratorPipeline => "iterator_pipeline"@,
            }),
    {
        match self {
            NestedMacro::Pull => "pull",
            NestedMacro::IteratorPipeline => "iterator_pipeline",
        }
    }
}

/// The diagnostic for a compiler panic whose payload held `message`
/// (`None` when the payload was not a string).
pub fn panic_diagnostic(message: Option<&str>) -> (r: String)
    ensures
        r@ == (match message {
            Some(m) => "compiler panicked: "@ + m@,
            None => "compiler panicked with a non-string payload"@,
        }),
{
    let mut out = String::new();
    match message {
        Some(m) => {
            push_str(&mut out, "compiler panicked: ");
            push_str(&mut out, m);
        },
        None => {
            push_str(&mut out, "compiler panicked with a non-string payload");
        },
    }
    out
}

/// The case name and stopping stage read so far.
pub struct TraceScan {
    pub case: Option<Seq<char>>,
    pub through: Option<Stage>,
}

/// Why trace arguments were refused while they were read.
pub enum TraceFault {
    RepeatedThrough,
    MissingThroughValue,
    UnknownStage(Seq<char>),
    UnknownOption(Seq<char>),
    UnexpectedArgument(Seq<char>),
}

/// What reading the trace options has seen so far.
pub enum TraceRead {
    Done(TraceScan),
    Fault(TraceFault),
}

/// Nothing read yet.
pub open spec fn start_trace_scan() -> TraceScan {
    TraceScan { case: None, through: None }
}

/// Reads trace arguments from position `i` on: `--through STAGE` at most
/// once, no other word that starts with `-`, and exactly one case name.
pub open spec fn scan_trace(args: Seq<Seq<char>>, i: int, st: TraceScan) -> TraceRead
    decreases args.len() - i,
{
    if i < 0 || i >= args.len() {
        TraceRead::Done(st)
    } else {
        let a = args[i];
        if a == "--through"@ {
            if st.through is Some {
                TraceRead::Fault(TraceFault::RepeatedThrough)
            } else if i + 1 >= args.len() {
                TraceRead::Fault(TraceFault::MissingThroughValue)
            } else {
                match stage_word(args[i + 1]) {
                    None => TraceRead::Fault(TraceFault::UnknownStage(args[i + 1])),
                    Some(stage) => scan_trace(args, i + 2, TraceScan { case: st.case, through: Some(stage) }),
                }
            }
        } else if a.len() > 0 && a[0] == '-' {
            TraceRead::Fault(TraceFault::UnknownOption(a))
        } else if st.case is None {
            scan_trace(args, i + 1, TraceScan { case: Some(a), through: st.through })
        } else {
            TraceRead::Fault(TraceFault::UnexpectedArgument(a))
        }
    }
}

/// The error that reports a fault in the trace options.
pub open spec fn trace_fault_is(e: ExplainError, f: TraceFault) -> bool {
    match f {
        TraceFault::RepeatedThrough => e is RepeatedThrough,
        TraceFault::MissingThroughValue => e is MissingThroughValue,
        TraceFault::UnknownStage(w) => e matches ExplainError::UnknownStage(n) && n@ == w,
        TraceFault::UnknownOption(w) => e matches ExplainError::UnknownOption(n) && n@ == w,
        TraceFault::UnexpectedArgument(w) => e matches ExplainError::UnexpectedArgument(n) && n@ == w,
    }
}

/// A trace request: one catalog case, up to one stage.
#[derive(Debug)]
pub struct Options {
    pub case: String,
    pub through: Stage,
}

/// What parsing trace arguments gives: the first refusal in argument
/// order; else the case name, which must be present, and the stage,
/// `final-rust` by default.
pub open spec fn trace_outcome(args: Seq<Seq<char>>, r: Result<Options, ExplainError>) -> bool {
    match scan_trace(args, 0, start_trace_scan()) {
        TraceRead::Fault(f) => match r {
            Err(e) => trace_fault_is(e, f),
            Ok(_) => false,
        },
        TraceRead::Done(st) => match st.case {
            None => r matches Err(ExplainError::MissingCase),
            Some(name) => {
                &&& r matches Ok(o)
                &&& o.case@ == name
                &&& o.through == (match st.through {
                    Some(s) => s,
                    None => Stage::FinalRust,
                })
            },
        },
    }
}

impl Options {
    /// The case and last stage that the arguments of a trace request name.
    pub fn parse(arguments: Vec<String>) -> (r: Result<Options, ExplainError>)
        ensures
            trace_outcome(names_view(arguments@), r),
    {
        let ghost args = names_view(arguments@);
        let mut case: Option<String> = None;
        let mut through: Option<Stage> = None;
        let mut i: usize = 0;
        while i < arguments.len()
            invariant
                args == names_view(arguments@),
                i <= arguments.len(),
                scan_trace(args, 0, start_trace_scan()) == scan_trace(
                    args,
                    i as int,
                    TraceScan {
                        case: match case {
                            Some(c) => Some(c@),
                            None => None,
                        },
                        through,
                    },
                ),
            decreases arguments.len() - i,
        {
            let argument = arguments[i].as_str();
            assert(argument@ == args[i as int]);
            if str_equal(argument, "--through") {
                if through.is_some() {
                    return Err(ExplainError::RepeatedThrough);
                }
                if i + 1 >= arguments.len() {
                    return Err(ExplainError::MissingThroughValue);
                }
                let value = arguments[i + 1].as_str();
                assert(value@ == args[i + 1]);
                let stage = Stage::parse(value)?;
                through = Some(stage);
                i = i + 2;
            } else if crate::tasks::is_option_word(argument) {
                return Err(ExplainError::UnknownOption(argument.to_string()));
            } else if case.is_none() {
                case = Some(argument.to_string());
                i = i + 1;
            } else {
                return Err(ExplainError::UnexpectedArgument(argument.to_string()));
            }
        }
        match case {
            Some(c) => Ok(Options {
                case: c,
                through: match through {
                    Some(s) => s,
                    None => Stage::FinalRust,
                },
            }),
            None => Err(ExplainError::MissingCase),
        }
    }

    /// The catalog case that the request names.
    pub fn catalog_case(&self) -> (r: Result<QueryCase, ExplainError>)
        ensures
            r is Ok <==> crate::all_names().contains(self.case@),
            r matches Ok(c) ==> c.name@ == self.case@,
            r matches Err(e) ==> e matches ExplainError::UnknownCase(n) && n@ == self.case@,
    {
        match crate::case(self.case.as_str()) {
            Some(c) => Ok(c),
            None => Err(ExplainError::UnknownCase(self.case.clone())),
        }
    }
}

/// `target/mini-linq-explain/CASE`, relative to the repository root.
pub fn artifact_directory(case: &QueryCase) -> (r: String)
    ensures
        r@ == "target/mini-linq-explain/"@ + case.name@,
{
    let mut out = String::new();
    push_str(&mut out, "target/mini-linq-explain/");
    push_str(&mut out, case.name);
    out
}

/// One row of the trace guide's stage table.
pub open spec fn stage_row(stage: Stage, through: Stage) -> Seq<char> {
    "| `"@ + stage.file_name_spec() + "` | `"@ + stage.name_spec() + "` | "@ + stage.description_spec() + " | "@
        + (if stage.rank_spec() <= through.rank_spec() {
        "generated on success"@
    } else {
        "not requested"@
    }) + " |"@
}

/// The stages in the order the compiler passes through them.
pub open spec fn compiler_order() -> Seq<Stage> {
    seq![
        Stage::Cq,
        Stage::RelationalPlan,
        Stage::IndexRequirements,
        Stage::RustAccessPlan,
        Stage::IteratorPipeline,
        Stage::FinalRust,
    ]
}

/// For every stage and every stopping stage, the trace-guide row of the stage
/// ends in `generated on success |` exactly when the stage comes no later than
/// the stopping stage in compiler order, and in `not requested |` otherwise.
pub proof fn trace_rows_mark_requested_stages(i: int, j: int)
    requires
        0 <= i < 6,
        0 <= j < 6,
    ensures
        i <= j ==> "generated on success |"@.is_suffix_of(
            stage_row(compiler_order()[i], compiler_order()[j]),
        ),
        j < i ==> "not requested |"@.is_suffix_of(stage_row(compiler_order()[i], compiler_order()[j])),
{
    let stage = compiler_order()[i];
    let through = compiler_order()[j];
    assert(stage.rank_spec() == i) by {
        if i == 0 {} else if i == 1 {} else if i == 2 {} else if i == 3 {} else if i == 4 {} else {}
    }
    assert(through.rank_spec() == j) by {
        if j == 0 {} else if j == 1 {} else if j == 2 {} else if j == 3 {} else if j == 4 {} else {}
    }
    reveal_strlit("generated on success");
    reveal_strlit("generated on success |");
    reveal_strlit("not requested");
    reveal_strlit("not requested |");
    reveal_strlit(" |");
    let head = "| `"@ + stage.file_name_spec() + "` | `"@ + stage.name_spec() + "` | "@
        + stage.description_spec() + " | "@;
    let status = if i <= j { "generated on success"@ } else { "not requested"@ };
    let tail = status + " |"@;
    assert(stage_row(stage, through) == head + tail);
    assert((head + tail).subrange(head.len() as int, (head + tail).len() as int) =~= tail);
    if i <= j {
        assert(tail =~= "generated on success |"@);
    } else {
        assert(tail =~= "not requested |"@);
    }
}

/// The table rows of the trace guide, one per stage.
pub open spec fn stage_rows(through: Stage) -> Seq<Seq<char>> {
    seq![
        stage_row(Stage::Cq, through),
        stage_row(Stage::RelationalPlan, through),
        stage_row(Stage::IndexRequirements, through),
        stage_row(Stage::RustAccessPlan, through),
        stage_row(Stage::IteratorPipeline, through),
        stage_row(Stage::FinalRust, through),
    ]
}

/// The trace guide written first into a trace directory.
pub open spec fn readme_spec(case: QueryCase, through: Stage) -> Seq<char> {
    "# MiniLinq compiler trace: `"@ + case.name@ + "`\n\n"@
        + "Generated from `"@ + case.rust_path@ + "` by:\n\n"@
        + "```text\n"@
        + "cargo xtask explain "@ + case.name@ + " --through "@ + through.name_spec() + "\n"@
        + "```\n\n"@
        + "Each `.rs` file is the complete program at one compiler boundary, not a fragment. "@
        + "Open adjacent files with VS Code's **Select for Compare** and **Compare with Selected** commands. "@
        + "Files after the requested stopping stage are deliberately absent.\n\n"@
        + "| File | Stage | Meaning | This run |\n"@
        + "| --- | --- | --- | --- |\n"@
        + join_with(stage_rows(through), '\n') + "\n\n"@
        + "If a compiler edge fails, earlier files remain and `ERROR.md` names that edge.\n"@
}

fn stage_row_text(stage: Stage, through: Stage) -> (r: String)
    ensures
        r@ == stage_row(stage, through),
{
    let mut out = String::new();
    push_str(&mut out, "| `");
    push_str(&mut out, stage.file_name());
    push_str(&mut out, "` | `");
    push_str(&mut out, stage.name());
    push_str(&mut out, "` | ");
    push_str(&mut out, stage.description());
    push_str(&mut out, " | ");
    if stage.rank() <= through.rank() {
        push_str(&mut out, "generated on success");
    } else {
        push_str(&mut out, "not requested");
    }
    push_str(&mut out, " |");
    assert(out@ =~= stage_row(stage, through));
    out
}

/// The trace guide of a request.
pub fn readme(case: &QueryCase, through: Stage) -> (r: String)
    ensures
        r@ == readme_spec(*case, through),
{
    let stages = Stage::all();
    let mut rows: Vec<String> = Vec::new();
    for k in 0..6
        invariant
            stages@ == seq![
                Stage::Cq,
                Stage::RelationalPlan,
                Stage::IndexRequirements,
                Stage::RustAccessPlan,
                Stage::IteratorPipeline,
                Stage::FinalRust,
            ],
            names_view(rows@) == stage_rows(through).take(k as int),
    {
        let row = stage_row_text(stages[k], through);
        let ghost before = rows@;
        rows.push(row);
        assert(names_view(rows@) =~= names_view(before).push(row@));
        assert(stage_rows(through).take(k + 1) =~= stage_rows(through).take(k as int).push(stage_rows(through)[k as int]));
    }
    assert(stage_rows(through).take(6) =~= stage_rows(through));
    let table = join_lines(&rows);
    let mut out = String::new();
    push_str(&mut out, "# MiniLinq compiler trace: `");
    push_str(&mut out, case.name);
    push_str(&mut out, "`\n\n");
    push_str(&mut out, "Generated from `");
    push_str(&mut out, case.rust_path);
    push_str(&mut out, "` by:\n\n");
    push_str(&mut out, "```text\n");
    push_str(&mut out, "cargo xtask explain ");
    push_str(&mut out, case.name);
    push_str(&mut out, " --through ");
    push_str(&mut out, through.name());
    push_str(&mut out, "\n");
    push_str(&mut out, "```\n\n");
    push_str(&mut out, "Each `.rs` file is the complete program at one compiler boundary, not a fragment. ");
    push_str(&mut out, "Open adjacent files with VS Code's **Select for Compare** and **Compare with Selected** commands. ");
    push_str(&mut out, "Files after the requested stopping stage are deliberately absent.\n\n");
    push_str(&mut out, "| File | Stage | Meaning | This run |\n");
    push_str(&mut out, "| --- | --- | --- | --- |\n");
    push_str(&mut out, table.as_str());
    push_str(&mut out, "\n\n");
    push_str(&mut out, "If a compiler edge fails, earlier files remain and `ERROR.md` names that edge.\n");
    assert(out@ =~= readme_spec(*case, through));
    out
}

/// The diagnostic with every line, empty ones too, indented by four spaces.
pub open spec fn indented_diagnostic(diagnostic: Seq<char>) -> Seq<char> {
    join_with(text_lines(diagnostic).map_values(|l: Seq<char>| "    "@ + l), '\n')
}

/// The failure report written when a compiler edge fails.
pub open spec fn error_report_spec(case_name: Seq<char>, edge: Seq<char>, diagnostic: Seq<char>) -> Seq<char> {
    "# MiniLinq compiler trace stopped\n\n"@
        + "Case: `"@ + case_name + "`\n\n"@
        + "Failed edge: `"@ + edge + "`\n\n"@
        + "Diagnostic:\n\n"@ + indented_diagnostic(diagnostic) + "\n\n"@
        + "Every earlier `.rs` artifact listed in this directory was produced successfully. "@
        + "No later compiler pass was called.\n"@
}

/// The failure report for a case, the failed edge, and its diagnostic.
pub fn error_report(case_name: &str, edge: &str, diagnostic: &str) -> (r: String)
    ensures
        r@ == error_report_spec(case_name@, edge@, diagnostic@),
{
    let lines = lines_of(diagnostic);
    let ghost l = text_lines(diagnostic@);
    let ghost m = l.map_values(|x: Seq<char>| "    "@ + x);
    let mut indented: Vec<String> = Vec::new();
    for k in 0..lines.len()
        invariant
            names_view(lines@) == l,
            m == l.map_values(|x: Seq<char>| "    "@ + x),
            names_view(indented@) == m.take(k as int),
    {
        let mut line = String::new();
        push_str(&mut line, "    ");
        push_str(&mut line, lines[k].as_str());
        assert(lines@[k as int]@ == l[k as int]);
        let ghost before = indented@;
        indented.push(line);
        assert(names_view(indented@) =~= names_view(before).push(line@));
        assert(m.take(k + 1) =~= m.take(k as int).push(m[k as int]));
    }
    assert(m.take(lines.len() as int) =~= m);
    let body = join_lines(&indented);
    let mut out = String::new();
    push_str(&mut out, "# MiniLinq compiler trace stopped\n\n");
    push_str(&mut out, "Case: `");
    push_str(&mut out, case_name);
    push_str(&mut out, "`\n\n");
    push_str(&mut out, "Failed edge: `");
    push_str(&mut out, edge);
    push_str(&mut out, "`\n\n");
    push_str(&mut out, "Diagnostic:\n\n");
    push_str(&mut out, body.as_str());
    push_str(&mut out, "\n\n");
    push_str(&mut out, "Every earlier `.rs` artifact listed in this directory was produced successfully. ");
    push_str(&mut out, "No later compiler pass was called.\n");
    assert(out@ =~= error_report_spec(case_name@, edge@, diagnostic@));
    out
}

/// `relation(v1, v2, ..)`: an atom as the CQ stage writes it.
pub open spec fn atom_text(atom: (Seq<char>, Seq<Seq<char>>)) -> Seq<char> {
    atom.0 + "("@ + join_sep(atom.1, ", "@) + ")"@
}

/// The column declarations `c0: i32, c1: i32, ..` of a relation: the
/// columns of a workload relation are named by position and hold `i32`.
pub open spec fn column_declarations(arity: nat) -> Seq<char> {
    join_sep(Seq::new(arity, |c: int| "c"@ + dec_nat(c as nat) + ": i32"@), ", "@)
}

/// The declaration line of one input.
pub open spec fn relation_line(input: (Seq<char>, nat)) -> Seq<char> {
    "relation "@ + input.0 + "("@ + column_declarations(input.1) + ");"@
}

/// Body clause `i` on a line of its own, ended by `,` or, for the last, `.`.
pub open spec fn clause_line(body: Seq<(Seq<char>, Seq<Seq<char>>)>, i: int) -> Seq<char> {
    "    "@ + atom_text(body[i]) + if i + 1 == body.len() {
        "."@
    } else {
        ","@
    }
}

/// The rule: on one line where the body has one clause, else the head and
/// `:-` followed by one line per clause.
pub open spec fn query_lines(m: ModuleView) -> Seq<Seq<char>> {
    if m.body.len() == 1 {
        seq![atom_text(m.head) + " :- "@ + atom_text(m.body[0]) + "."@]
    } else {
        seq![atom_text(m.head) + " :-"@] + Seq::new(m.body.len(), |i: int| clause_line(m.body, i))
    }
}

/// The lines of a CQ program: its public struct, one line per declared
/// input, then the rule.
pub open spec fn cq_program_lines(name: Seq<char>, m: ModuleView) -> Seq<Seq<char>> {
    seq!["pub struct "@ + name + ";"@] + m.inputs.map_values(|d: (Seq<char>, nat)| relation_line(d)) + query_lines(m)
}

/// The CQ stage file of a catalog program: the program inside the
/// `mini_linq!` macro, indented by four spaces.
pub open spec fn cq_stage_text(program: QueryProgram) -> Seq<char> {
    "::mini_linq::"@ + "mini_linq"@ + "! {\n"@ + indent_lines_spec(join_with(cq_program_lines(program.struct_name_spec(), program.module_spec()), '\n'),
        "    "@) + "\n}\n"@
}

/// Appends `items` separated by `, `.
fn push_names(out: &mut String, items: &Vec<String>)
    ensures
        final(out)@ == old(out)@ + join_sep(names_view(items@), ", "@),
{
    let ghost start = out@;
    for k in 0..items.len()
        invariant
            out@ == start + join_sep(names_view(items@).take(k as int), ", "@),
    {
        let ghost p = names_view(items@).take(k as int);
        if k != 0 {
            push_str(out, ", ");
        }
        push_str(out, items[k].as_str());
        proof {
            assert(names_view(items@).take(k + 1) =~= p.push(items@[k as int]@));
            lemma_join_sep_push(p, ", "@, items@[k as int]@);
            if k == 0 {
                assert(join_sep(p, ", "@) == Seq::<char>::empty());
            }
        }
    }
    assert(names_view(items@).take(items@.len() as int) =~= names_view(items@));
}

/// Appends an atom as the CQ stage writes it.
fn push_atom(out: &mut String, atom: &Atom)
    ensures
        final(out)@ == old(out)@ + atom_text(atom_view(*atom)),
{
    push_str(out, atom.relation.as_str());
    push_str(out, "(");
    push_names(out, &atom.variables);
    push_str(out, ")");
}

/// The declaration line of one input.
fn relation_text(input: &RelationDecl) -> (r: String)
    ensures
        r@ == relation_line(decl_view(*input)),
{
    let mut out = String::from_str("relation ");
    push_str(&mut out, input.name.as_str());
    push_str(&mut out, "(");
    let ghost start = out@;
    for c in 0..input.arity
        invariant
            out@ == start + join_sep(Seq::new(c as nat, |d: int| "c"@ + dec_nat(d as nat) + ": i32"@), ", "@),
    {
        let ghost p = Seq::new(c as nat, |d: int| "c"@ + dec_nat(d as nat) + ": i32"@);
        let ghost x = "c"@ + dec_nat(c as nat) + ": i32"@;
        let ghost before = out@;
        if c != 0 {
            push_str(&mut out, ", ");
        }
        let ghost mid = out@;
        push_str(&mut out, "c");
        push_u64(&mut out, c as u64);
        push_str(&mut out, ": i32");
        proof {
            assert(out@ =~= mid + x);
            assert(Seq::new((c + 1) as nat, |d: int| "c"@ + dec_nat(d as nat) + ": i32"@) =~= p.push(x));
            lemma_join_sep_push(p, ", "@, x);
            if c == 0 {
                assert(join_sep(p, ", "@) == Seq::<char>::empty());
            }
        }
    }
    push_str(&mut out, ");");
    out
}

/// The CQ stage file of a catalog case: its program, written as the
/// compiler trace shows it before any pass runs.
pub fn render_cq_stage(case: &QueryCase) -> (r: String)
    ensures
        r@ == cq_stage_text(case.program),
{
    let module = case.module();
    let ghost m = case.program.module_spec();
    let ghost goal = cq_program_lines(case.program.struct_name_spec(), m);
    let mut lines: Vec<String> = Vec::new();
    let mut header = String::from_str("pub struct ");
    push_str(&mut header, case.program.struct_name());
    push_str(&mut header, ";");
    lines.push(header);
    proof {
        assert(module_view(module) == m);
        assert(m.inputs == module.inputs@.map_values(|d: RelationDecl| decl_view(d)));
        assert(m.body == module.body@.map_values(|a: Atom| atom_view(a)));
    }
    for i in 0..module.inputs.len()
        invariant
            module_view(module) == m,
            names_view(lines@) == goal.take(i + 1),
            goal == cq_program_lines(case.program.struct_name_spec(), m),
    {
        let line = relation_text(&module.inputs[i]);
        let ghost before = names_view(lines@);
        lines.push(line);
        proof {
            assert(m.inputs[i as int] == decl_view(module.inputs@[i as int]));
            assert(goal[i + 1] == relation_line(m.inputs[i as int]));
            assert(names_view(lines@) =~= before.push(relation_line(m.inputs[i as int])));
            assert(goal.take(i + 2) =~= goal.take(i + 1).push(goal[i + 1]));
            assert(names_view(lines@) =~= goal.take(i + 2));
        }
    }
    let n = module.inputs.len();
    let body = &module.body;
    let mut head = String::new();
    push_atom(&mut head, &module.head);
    if body.len() == 1 {
        push_str(&mut head, " :- ");
        push_atom(&mut head, &body[0]);
        push_str(&mut head, ".");
        lines.push(head);
        proof {
            assert(m.body[0] == atom_view(body@[0]));
            assert(names_view(lines@) =~= goal);
        }
    } else {
        push_str(&mut head, " :-");
        lines.push(head);
        proof {
            assert(names_view(lines@) =~= goal.take(n + 2));
        }
        for i in 0..body.len()
            invariant
                module_view(module) == m,
                body == &module.body,
                n == module.inputs@.len(),
                m.body.len() == body@.len(),
                m.body.len() != 1,
                names_view(lines@) == goal.take(n + 2 + i),
                goal == cq_program_lines(case.program.struct_name_spec(), m),
        {
            let mut line = String::from_str("    ");
            push_atom(&mut line, &body[i]);
            if i + 1 == body.len() {
                push_str(&mut line, ".");
            } else {
                push_str(&mut line, ",");
            }
            let ghost before = names_view(lines@);
            lines.push(line);
            proof {
                assert(m.body[i as int] == atom_view(body@[i as int]));
                assert(goal[n + 2 + i] == clause_line(m.body, i as int));
                assert(names_view(lines@) =~= before.push(clause_line(m.body, i as int)));
                assert(goal.take(n + 2 + i + 1) =~= goal.take(n + 2 + i).push(goal[n + 2 + i]));
                assert(names_view(lines@) =~= goal.take(n + 2 + i + 1));
            }
        }
        proof {
            assert(goal.take(n + 2 + body@.len()) =~= goal);
        }
    }
    let text = join_lines(&lines);
    render_ir_macro("mini_linq", text.as_str())
}

} // verus!
