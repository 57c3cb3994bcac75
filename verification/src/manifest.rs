//! The line-oriented dataset manifest: one `key<TAB>value` line per header
//! field, then one `relation<TAB>name<TAB>arity<TAB>raw<TAB>distinct` line per
//! input, every line ending in a newline.

use vstd::prelude::*;

use crate::dataset::{
    chars_to_string, manifest_token_ok, relation_name_ok, validate_manifest_token,
    validate_relation_name, DatasetError, Manifest, ManifestProblem, RelationCardinality,
    TokenContext,
};
use crate::split::{join_with, pieces_free_of, pieces_view, split_chars, split_on};
use crate::text::{
    chars_equal_str, chars_of, dec_nat, parse_unsigned, push_char, push_str, u64_text,
    unsigned_literal_value, Decimal,
};
use crate::{Scale, Scenario, Suite};

verus! {

/// The file name of the manifest inside a dataset directory.
pub const MANIFEST_FILE: &'static str = "manifest.txt";

/// The manifest layout version written on its first line.
pub const FORMAT_VERSION: u32 = 2;

/// A line made of tab-separated fields.
pub open spec fn tab_line(fields: Seq<Seq<char>>) -> Seq<char> {
    join_with(fields, '\t')
}

/// The eight header lines for the given values, in order.
pub open spec fn header_lines_for(
    suite: Suite,
    case: Seq<char>,
    scenario: Scenario,
    scale: Scale,
    seed: nat,
    generator_version: nat,
    relation_count: nat,
) -> Seq<Seq<char>> {
    seq![
        tab_line(seq!["mini-linq-dataset"@, dec_nat(FORMAT_VERSION as nat)]),
        tab_line(seq!["suite"@, suite.name_spec()]),
        tab_line(seq!["case"@, case]),
        tab_line(seq!["scenario"@, scenario.name_spec()]),
        tab_line(seq!["scale"@, scale.name_spec()]),
        tab_line(seq!["seed"@, dec_nat(seed)]),
        tab_line(seq!["generator-version"@, dec_nat(generator_version)]),
        tab_line(seq!["relations"@, dec_nat(relation_count)]),
    ]
}

/// The eight header lines of a manifest.
pub open spec fn header_lines(m: Manifest) -> Seq<Seq<char>> {
    header_lines_for(
        m.suite,
        m.case@,
        m.scenario,
        m.scale,
        m.seed as nat,
        m.generator_version as nat,
        m.relations@.len(),
    )
}

/// The five fields of one relation entry.
pub open spec fn relation_fields(r: RelationCardinality) -> Seq<Seq<char>> {
    seq![
        "relation"@,
        r.name@,
        dec_nat(r.arity as nat),
        dec_nat(r.raw_rows as nat),
        dec_nat(r.distinct_rows as nat),
    ]
}

/// The manifest line of every relation entry.
pub open spec fn relation_lines(rels: Seq<RelationCardinality>) -> Seq<Seq<char>> {
    rels.map_values(|r: RelationCardinality| tab_line(relation_fields(r)))
}

/// The lines of a manifest, without their newlines.
pub open spec fn manifest_lines(m: Manifest) -> Seq<Seq<char>> {
    header_lines(m) + relation_lines(m.relations@)
}

/// The manifest text: every line followed by a newline.
pub open spec fn manifest_text(m: Manifest) -> Seq<char> {
    join_with(manifest_lines(m).push(Seq::<char>::empty()), '\n')
}

/// A manifest that its text can represent and its reader accepts.
pub open spec fn manifest_encodable(m: Manifest) -> bool {
    &&& manifest_token_ok(m.case@)
    &&& forall|i: int|
        0 <= i < m.relations@.len() ==> {
            &&& relation_name_ok((#[trigger] m.relations@[i]).name@)
            &&& m.relations@[i].distinct_rows <= m.relations@[i].raw_rows
        }
}

/// Two entries record the same name, arity and counts.
pub open spec fn same_cardinality(a: RelationCardinality, b: RelationCardinality) -> bool {
    &&& a.name@ == b.name@
    &&& a.arity == b.arity
    &&& a.raw_rows == b.raw_rows
    &&& a.distinct_rows == b.distinct_rows
}

/// Two manifests that hold the same values.
pub open spec fn same_manifest(a: Manifest, b: Manifest) -> bool {
    &&& a.suite == b.suite
    &&& a.case@ == b.case@
    &&& a.scenario == b.scenario
    &&& a.scale == b.scale
    &&& a.seed == b.seed
    &&& a.generator_version == b.generator_version
    &&& a.relations@.len() == b.relations@.len()
    &&& forall|i: int|
        0 <= i < a.relations@.len() ==> same_cardinality(
            #[trigger] a.relations@[i],
            b.relations@[i],
        )
}

/// Free of tabs and newlines.
pub open spec fn plain(s: Seq<char>) -> bool {
    forall|i: int| 0 <= i < s.len() ==> (#[trigger] s[i]) != '\t' && s[i] != '\n'
}

proof fn lemma_plain_not_contains(s: Seq<char>)
    requires
        plain(s),
    ensures
        !s.contains('\t'),
        !s.contains('\n'),
{
}

proof fn lemma_token_plain(s: Seq<char>)
    requires
        manifest_token_ok(s),
    ensures
        plain(s),
{
    assert forall|i: int| 0 <= i < s.len() implies (#[trigger] s[i]) != '\t' && s[i] != '\n' by {
        assert(s.contains(s[i]));
    }
}

proof fn lemma_dec_plain(n: nat)
    ensures
        plain(dec_nat(n)),
{
    crate::text::lemma_dec_int_chars(n as int);
    assert(crate::text::dec_int(n as int) == dec_nat(n));
}

/// The fixed words of the manifest hold no tab or newline.
proof fn lemma_words_plain()
    ensures
        plain("mini-linq-dataset"@),
        plain("suite"@),
        plain("case"@),
        plain("scenario"@),
        plain("scale"@),
        plain("seed"@),
        plain("generator-version"@),
        plain("relations"@),
        plain("relation"@),
        forall|s: Suite| plain(#[trigger] s.name_spec()),
        forall|s: Scenario| plain(#[trigger] s.name_spec()),
        forall|s: Scale| plain(#[trigger] s.name_spec()),
{
    reveal_strlit("mini-linq-dataset");
    reveal_strlit("suite");
    reveal_strlit("case");
    reveal_strlit("scenario");
    reveal_strlit("scale");
    reveal_strlit("seed");
    reveal_strlit("generator-version");
    reveal_strlit("relations");
    reveal_strlit("relation");
    reveal_strlit("classic");
    reveal_strlit("retail");
    reveal_strlit("coverage");
    reveal_strlit("empty-input");
    reveal_strlit("no-match");
    reveal_strlit("tiny");
    reveal_strlit("medium");
    reveal_strlit("large");
    assert forall|s: Suite| plain(#[trigger] s.name_spec()) by {
        match s {
            Suite::Classic => {},
            Suite::Retail => {},
        }
    }
    assert forall|s: Scenario| plain(#[trigger] s.name_spec()) by {
        match s {
            Scenario::Coverage => {},
            Scenario::EmptyInput => {},
            Scenario::NoMatch => {},
        }
    }
    assert forall|s: Scale| plain(#[trigger] s.name_spec()) by {
        match s {
            Scale::Tiny => {},
            Scale::Medium => {},
            Scale::Large => {},
        }
    }
}

/// Each name is the name of one value only.
proof fn lemma_names_distinct()
    ensures
        forall|a: Suite, b: Suite| a.name_spec() == b.name_spec() ==> a == b,
        forall|a: Scenario, b: Scenario| a.name_spec() == b.name_spec() ==> a == b,
        forall|a: Scale, b: Scale| a.name_spec() == b.name_spec() ==> a == b,
{
    reveal_strlit("classic");
    reveal_strlit("retail");
    reveal_strlit("coverage");
    reveal_strlit("empty-input");
    reveal_strlit("no-match");
    reveal_strlit("tiny");
    reveal_strlit("medium");
    reveal_strlit("large");
    assert("classic"@[0] != "retail"@[0]);
    assert("coverage"@[0] != "empty-input"@[0]);
    assert("coverage"@[0] != "no-match"@[0]);
    assert("empty-input"@[0] != "no-match"@[0]);
    assert("tiny"@[0] != "medium"@[0]);
    assert("tiny"@[0] != "large"@[0]);
    assert("medium"@[0] != "large"@[0]);
}

proof fn lemma_dec_nat_injective(a: nat, b: nat)
    requires
        dec_nat(a) == dec_nat(b),
    ensures
        a == b,
{
    crate::text::lemma_unsigned_literal_of_dec(a);
    crate::text::lemma_unsigned_literal_of_dec(b);
}

/// Splitting a line of plain fields on tabs gives back the fields.
proof fn lemma_split_tab_line(fields: Seq<Seq<char>>)
    requires
        fields.len() >= 1,
        forall|i: int| 0 <= i < fields.len() ==> plain(#[trigger] fields[i]),
    ensures
        split_on(tab_line(fields), '\t') == fields,
        !tab_line(fields).contains('\n'),
{
    assert(pieces_free_of(fields, '\t')) by {
        assert forall|i: int| 0 <= i < fields.len() implies !(#[trigger] fields[i]).contains('\t') by {
            lemma_plain_not_contains(fields[i]);
        }
    }
    assert(pieces_free_of(fields, '\n')) by {
        assert forall|i: int| 0 <= i < fields.len() implies !(#[trigger] fields[i]).contains('\n') by {
            lemma_plain_not_contains(fields[i]);
        }
    }
    crate::split::lemma_split_join(fields, '\t');
    crate::dataset::lemma_join_free(fields, '\t', '\n');
}

/// No line of an encodable manifest holds a newline.
#[verifier::spinoff_prover]
#[verifier::rlimit(30)]
proof fn lemma_manifest_lines_plain(m: Manifest)
    requires
        manifest_encodable(m),
    ensures
        pieces_free_of(manifest_lines(m), '\n'),
        forall|i: int|
            0 <= i < m.relations@.len() ==> split_on(
                #[trigger] manifest_lines(m)[i + 8],
                '\t',
            ) == relation_fields(m.relations@[i]),
        split_on(manifest_lines(m)[0], '\t') == seq!["mini-linq-dataset"@, dec_nat(FORMAT_VERSION as nat)],
        split_on(manifest_lines(m)[1], '\t') == seq!["suite"@, m.suite.name_spec()],
        split_on(manifest_lines(m)[2], '\t') == seq!["case"@, m.case@],
        split_on(manifest_lines(m)[3], '\t') == seq!["scenario"@, m.scenario.name_spec()],
        split_on(manifest_lines(m)[4], '\t') == seq!["scale"@, m.scale.name_spec()],
        split_on(manifest_lines(m)[5], '\t') == seq!["seed"@, dec_nat(m.seed as nat)],
        split_on(manifest_lines(m)[6], '\t') == seq!["generator-version"@, dec_nat(m.generator_version as nat)],
        split_on(manifest_lines(m)[7], '\t') == seq!["relations"@, dec_nat(m.relations@.len())],
        manifest_lines(m).len() == 8 + m.relations@.len(),
{
    lemma_words_plain();
    lemma_token_plain(m.case@);
    lemma_dec_plain(FORMAT_VERSION as nat);
    lemma_dec_plain(m.seed as nat);
    lemma_dec_plain(m.generator_version as nat);
    lemma_dec_plain(m.relations@.len());
    let h = header_lines(m);
    lemma_split_tab_line(seq!["mini-linq-dataset"@, dec_nat(FORMAT_VERSION as nat)]);
    lemma_split_tab_line(seq!["suite"@, m.suite.name_spec()]);
    lemma_split_tab_line(seq!["case"@, m.case@]);
    lemma_split_tab_line(seq!["scenario"@, m.scenario.name_spec()]);
    lemma_split_tab_line(seq!["scale"@, m.scale.name_spec()]);
    lemma_split_tab_line(seq!["seed"@, dec_nat(m.seed as nat)]);
    lemma_split_tab_line(seq!["generator-version"@, dec_nat(m.generator_version as nat)]);
    lemma_split_tab_line(seq!["relations"@, dec_nat(m.relations@.len())]);
    assert forall|i: int| 0 <= i < m.relations@.len() implies split_on(
        #[trigger] manifest_lines(m)[i + 8],
        '\t',
    ) == relation_fields(m.relations@[i]) && !manifest_lines(m)[i + 8].contains('\n') by {
        let r = m.relations@[i];
        lemma_token_plain(r.name@);
        lemma_dec_plain(r.arity as nat);
        lemma_dec_plain(r.raw_rows as nat);
        lemma_dec_plain(r.distinct_rows as nat);
        lemma_split_tab_line(relation_fields(r));
        assert(manifest_lines(m)[i + 8] == relation_lines(m.relations@)[i]);
    }
    assert forall|i: int| 0 <= i < manifest_lines(m).len() implies !(#[trigger] manifest_lines(m)[i]).contains('\n') by {
        if i >= 8 {
            assert(manifest_lines(m)[(i - 8) + 8] == manifest_lines(m)[i]);
        }
    }
}

/// Splitting the manifest text on newlines gives its lines and a final empty piece.
proof fn lemma_split_manifest_text(m: Manifest)
    requires
        manifest_encodable(m),
    ensures
        split_on(manifest_text(m), '\n') == manifest_lines(m).push(Seq::<char>::empty()),
{
    lemma_manifest_lines_plain(m);
    let lines = manifest_lines(m).push(Seq::<char>::empty());
    assert(pieces_free_of(lines, '\n')) by {
        assert forall|i: int| 0 <= i < lines.len() implies !(#[trigger] lines[i]).contains('\n') by {
            if i < manifest_lines(m).len() {
                assert(lines[i] == manifest_lines(m)[i]);
            }
        }
    }
    crate::split::lemma_split_join(lines, '\n');
}

/// Two encodable manifests with one text hold the same values.
pub proof fn lemma_manifest_text_injective(a: Manifest, b: Manifest)
    requires
        manifest_encodable(a),
        manifest_encodable(b),
        manifest_text(a) == manifest_text(b),
    ensures
        same_manifest(a, b),
{
    lemma_split_manifest_text(a);
    lemma_split_manifest_text(b);
    lemma_manifest_lines_plain(a);
    lemma_manifest_lines_plain(b);
    lemma_names_distinct();
    let e = Seq::<char>::empty();
    assert(manifest_lines(a).push(e).drop_last() == manifest_lines(a));
    assert(manifest_lines(b).push(e).drop_last() == manifest_lines(b));
    let la = manifest_lines(a);
    let lb = manifest_lines(b);
    assert(la == lb);
    assert(seq!["suite"@, a.suite.name_spec()][1] == seq!["suite"@, b.suite.name_spec()][1]);
    assert(seq!["case"@, a.case@][1] == seq!["case"@, b.case@][1]);
    assert(seq!["scenario"@, a.scenario.name_spec()][1] == seq!["scenario"@, b.scenario.name_spec()][1]);
    assert(seq!["scale"@, a.scale.name_spec()][1] == seq!["scale"@, b.scale.name_spec()][1]);
    assert(seq!["seed"@, dec_nat(a.seed as nat)][1] == seq!["seed"@, dec_nat(b.seed as nat)][1]);
    lemma_dec_nat_injective(a.seed as nat, b.seed as nat);
    assert(seq!["generator-version"@, dec_nat(a.generator_version as nat)][1]
        == seq!["generator-version"@, dec_nat(b.generator_version as nat)][1]);
    lemma_dec_nat_injective(a.generator_version as nat, b.generator_version as nat);
    assert(seq!["relations"@, dec_nat(a.relations@.len())][1] == seq!["relations"@, dec_nat(b.relations@.len())][1]);
    lemma_dec_nat_injective(a.relations@.len(), b.relations@.len());
    assert forall|i: int| 0 <= i < a.relations@.len() implies same_cardinality(
        #[trigger] a.relations@[i],
        b.relations@[i],
    ) by {
        let fa = relation_fields(a.relations@[i]);
        let fb = relation_fields(b.relations@[i]);
        assert(la[i + 8] == lb[i + 8]);
        assert(fa == fb);
        assert(fa[1] == fb[1]);
        assert(fa[2] == fb[2]);
        assert(fa[3] == fb[3]);
        assert(fa[4] == fb[4]);
        lemma_dec_nat_injective(a.relations@[i].arity as nat, b.relations@[i].arity as nat);
        lemma_dec_nat_injective(a.relations@[i].raw_rows as nat, b.relations@[i].raw_rows as nat);
        lemma_dec_nat_injective(
            a.relations@[i].distinct_rows as nat,
            b.relations@[i].distinct_rows as nat,
        );
    }
}

proof fn lemma_join_two(a: Seq<char>, b: Seq<char>, c: char)
    ensures
        join_with(seq![a, b], c) == a.push(c) + b,
{
    let p = seq![a, b];
    assert(p.drop_last() =~= seq![a]);
    assert(p.last() == b);
    assert(join_with(seq![a], c) == a);
}

/// Appends `key<TAB>value` and a newline.
fn push_kv_line(out: &mut String, key: &str, value: &str)
    ensures
        final(out)@ == old(out)@ + tab_line(seq![key@, value@]).push('\n'),
{
    push_str(out, key);
    push_char(out, '\t');
    push_str(out, value);
    push_char(out, '\n');
    proof {
        lemma_join_two(key@, value@, '\t');
        assert(final(out)@ =~= old(out)@ + tab_line(seq![key@, value@]).push('\n'));
    }
}

/// Writes the manifest lines, each ending in a newline.
pub fn encode_manifest(manifest: &Manifest) -> (r: String)
    ensures
        r@ == manifest_text(*manifest),
{

    let mut out = String::new();
    let ghost mut lines = Seq::<Seq<char>>::empty();
    assert(out@ == join_with(lines.push(Seq::<char>::empty()), '\n'));
    let version = u64_text(FORMAT_VERSION as u64);
    let seed = u64_text(manifest.seed);
    let generator_version = u64_text(manifest.generator_version as u64);
    let count = u64_text(manifest.relations.len() as u64);
    let mut k: usize = 0;
    while k < 8
        invariant
            0 <= k <= 8,
            lines == header_lines(*manifest).take(k as int),
            out@ == join_with(lines.push(Seq::<char>::empty()), '\n'),
            version@ == dec_nat(FORMAT_VERSION as nat),
            seed@ == dec_nat(manifest.seed as nat),
            generator_version@ == dec_nat(manifest.generator_version as nat),
            count@ == dec_nat(manifest.relations@.len()),
        decreases 8 - k,
    {
        let ghost before = out@;
        if k == 0 {
            push_kv_line(&mut out, "mini-linq-dataset", version.as_str());
        } else if k == 1 {
            push_kv_line(&mut out, "suite", manifest.suite.as_str());
        } else if k == 2 {
            push_kv_line(&mut out, "case", manifest.case.as_str());
        } else if k == 3 {
            push_kv_line(&mut out, "scenario", manifest.scenario.as_str());
        } else if k == 4 {
            push_kv_line(&mut out, "scale", manifest.scale.as_str());
        } else if k == 5 {
            push_kv_line(&mut out, "seed", seed.as_str());
        } else if k == 6 {
            push_kv_line(&mut out, "generator-version", generator_version.as_str());
        } else {
            push_kv_line(&mut out, "relations", count.as_str());
        }
        proof {
            let x = header_lines(*manifest)[k as int];
            assert(out@ == before + x.push('\n'));
            crate::dataset::lemma_join_push_terminated(lines, x, '\n');
            assert(header_lines(*manifest).take(k + 1) == lines.push(x));
            lines = lines.push(x);
        }
        k += 1;
    }
    assert(lines == header_lines(*manifest));
    for i in 0..manifest.relations.len()
        invariant
            lines == header_lines(*manifest) + relation_lines(manifest.relations@.take(i as int)),
            out@ == join_with(lines.push(Seq::<char>::empty()), '\n'),
    {
        let r = &manifest.relations[i];
        let ghost before = out@;
        let arity = u64_text(r.arity as u64);
        let raw = u64_text(r.raw_rows as u64);
        let distinct = u64_text(r.distinct_rows as u64);
        push_str(&mut out, "relation");
        push_char(&mut out, '\t');
        push_str(&mut out, r.name.as_str());
        push_char(&mut out, '\t');
        push_str(&mut out, arity.as_str());
        push_char(&mut out, '\t');
        push_str(&mut out, raw.as_str());
        push_char(&mut out, '\t');
        push_str(&mut out, distinct.as_str());
        push_char(&mut out, '\n');
        proof {
            let f = relation_fields(*r);
            assert(f == seq!["relation"@].push(r.name@).push(dec_nat(r.arity as nat)).push(
                dec_nat(r.raw_rows as nat),
            ).push(dec_nat(r.distinct_rows as nat)));
            crate::dataset::lemma_join_push(seq!["relation"@], r.name@, '\t');
            crate::dataset::lemma_join_push(seq!["relation"@].push(r.name@), dec_nat(r.arity as nat), '\t');
            crate::dataset::lemma_join_push(
                seq!["relation"@].push(r.name@).push(dec_nat(r.arity as nat)),
                dec_nat(r.raw_rows as nat),
                '\t',
            );
            crate::dataset::lemma_join_push(
                seq!["relation"@].push(r.name@).push(dec_nat(r.arity as nat)).push(
                    dec_nat(r.raw_rows as nat),
                ),
                dec_nat(r.distinct_rows as nat),
                '\t',
            );
            let x = tab_line(f);
            assert(out@ =~= before + x.push('\n'));
            crate::dataset::lemma_join_push_terminated(lines, x, '\n');
            assert(relation_lines(manifest.relations@.take(i + 1)) =~= relation_lines(
                manifest.relations@.take(i as int),
            ).push(x));
            lines = lines.push(x);
        }
    }
    assert(manifest.relations@.take(manifest.relations@.len() as int) == manifest.relations@);
    out
}

fn manifest_error(path: &String, line: usize, problem: ManifestProblem) -> (e: DatasetError)
    ensures
        e matches DatasetError::Manifest { path: p, line: l, problem: q } && p@ == path@ && l == line && q == problem,
{
    DatasetError::Manifest { path: path.clone(), line, problem }
}

/// The value of a `key<TAB>value` line.
pub fn manifest_value(path: &String, line: usize, actual: &Vec<char>, key: &str) -> (r: Result<
    Vec<char>,
    DatasetError,
>)
    ensures
        match r {
            Ok(v) => split_on(actual@, '\t') == seq![key@, v@],
            Err(e) => {
                &&& !(split_on(actual@, '\t').len() == 2 && split_on(actual@, '\t')[0] == key@)
                &&& e matches DatasetError::Manifest { path: p, line: l, problem: ManifestProblem::ExpectedKeyValue { key: k } }
                &&& p@ == path@ && l == line && k@ == key@
            },
        },
{
    let fields = split_chars(actual.as_slice(), '\t');
    if fields.len() != 2 || !chars_equal_str(&fields[0], key) {
        return Err(manifest_error(path, line, ManifestProblem::ExpectedKeyValue { key: String::from_str(key) }));
    }
    let value = fields[1].clone();
    proof {
        assert(pieces_view(fields@)[0] == fields@[0]@);
        assert(pieces_view(fields@)[1] == fields@[1]@);
        assert(pieces_view(fields@) =~= seq![key@, value@]);
    }
    Ok(value)
}

/// Requires the line to read exactly `key<TAB>value`.
pub fn expect_manifest_line(
    path: &String,
    line: usize,
    actual: &Vec<char>,
    key: &str,
    value: &str,
) -> (r: Result<(), DatasetError>)
    ensures
        r is Ok <==> split_on(actual@, '\t') == seq![key@, value@],
        r matches Err(e) ==> match e {
            DatasetError::Manifest { path: p, line: l, problem: q } => p@ == path@ && l == line
                && match q {
                ManifestProblem::ExpectedKeyValue { key: k } => k@ == key@,
                ManifestProblem::ExpectedLine { key: k, value: v } => k@ == key@ && v@ == value@,
                _ => false,
            },
            _ => false,
        },
{
    let actual_value = manifest_value(path, line, actual, key)?;
    if !chars_equal_str(&actual_value, value) {
        proof {
            if split_on(actual@, '\t') == seq![key@, value@] {
                assert(seq![key@, actual_value@][1] == seq![key@, value@][1]);
            }
        }
        return Err(manifest_error(path, line, ManifestProblem::ExpectedLine {
            key: String::from_str(key),
            value: String::from_str(value),
        }));
    }
    Ok(())
}

/// Reads a field that must be the canonical decimal text of a number at most `max`.
pub fn parse_number_field(path: &String, line: usize, field: &str, value: &Vec<char>, max: u64) -> (r:
    Result<u64, DatasetError>)
    ensures
        match r {
            Ok(n) => n <= max && value@ == dec_nat(n as nat),
            Err(e) => (forall|k: nat| k <= max ==> value@ != dec_nat(k)) && match e {
                DatasetError::Manifest { path: p, line: l, problem: q } => p@ == path@ && l == line
                    && match q {
                    ManifestProblem::NotANumber { field: f, value: v } => f@ == field@ && v@ == value@
                        && !(unsigned_literal_value(value@) matches Some(x) && x <= max),
                    ManifestProblem::NotCanonical { field: f, value: v } => f@ == field@ && v@ == value@
                        && (unsigned_literal_value(value@) matches Some(x) && x <= max),
                    _ => false,
                },
                _ => false,
            },
        },
{
    match parse_unsigned(value, max) {
        Decimal::Invalid => Err(manifest_error(path, line, ManifestProblem::NotANumber {
            field: String::from_str(field),
            value: chars_to_string(value),
        })),
        Decimal::NonCanonical => Err(manifest_error(path, line, ManifestProblem::NotCanonical {
            field: String::from_str(field),
            value: chars_to_string(value),
        })),
        Decimal::Value(n) => Ok(n),
    }
}

/// Reads a `key<TAB>number` line.
pub fn parse_manifest_number(path: &String, line: usize, actual: &Vec<char>, key: &str, max: u64) -> (r:
    Result<u64, DatasetError>)
    ensures
        r matches Ok(n) ==> n <= max && split_on(actual@, '\t') == seq![key@, dec_nat(n as nat)],
        forall|k: nat| k <= max && split_on(actual@, '\t') == seq![key@, dec_nat(k)] ==> r == Ok::<u64, DatasetError>(k as u64),
        r matches Err(e) ==> e matches DatasetError::Manifest { path: p, line: l, .. } && p@ == path@ && l == line,
        r matches Err(e) ==> !count_refusal(e),
{
    let value = manifest_value(path, line, actual, key)?;
    proof {
        assert forall|k: nat| k <= max && split_on(actual@, '\t') == seq![key@, dec_nat(k)] implies value@ == dec_nat(k) by {
            assert(seq![key@, value@][1] == seq![key@, dec_nat(k)][1]);
        }
    }
    let n = parse_number_field(path, line, key, &value, max)?;
    proof {
        assert forall|k: nat| k <= max && split_on(actual@, '\t') == seq![key@, dec_nat(k)] implies n == k by {
            lemma_dec_nat_injective(n as nat, k);
        }
    }
    Ok(n)
}

/// The header values of a manifest.
struct ManifestHeader {
    suite: Suite,
    case: String,
    scenario: Scenario,
    scale: Scale,
    seed: u64,
    generator_version: u32,
    relation_count: usize,
}

impl ManifestHeader {
    spec fn lines(&self) -> Seq<Seq<char>> {
        header_lines_for(
            self.suite,
            self.case@,
            self.scenario,
            self.scale,
            self.seed as nat,
            self.generator_version as nat,
            self.relation_count as nat,
        )
    }
}

/// The eight leading lines of `m`'s text are those of `pieces`.
/// A refusal for a wrong number of relation entries.
pub open spec fn count_refusal(e: DatasetError) -> bool {
    e matches DatasetError::Manifest { problem: ManifestProblem::EntryCountMismatch { .. }, .. }
}

/// The first eight lines of `text` are the header lines of `m`, and a line
/// break ends them.
pub open spec fn header_text_matches(text: Seq<char>, m: Manifest) -> bool {
    let lines = split_on(text, '\n');
    &&& lines.len() >= 9
    &&& forall|k: int| 0 <= k < 8 ==> #[trigger] lines[k] == header_lines(m)[k]
}

spec fn header_matches(pieces: Seq<Vec<char>>, m: Manifest) -> bool {
    &&& pieces.len() >= 8
    &&& forall|k: int| 0 <= k < 8 ==> #[trigger] pieces[k]@ == header_lines(m)[k]
}

/// Reads the eight header lines.
fn decode_header(path: &String, pieces: &Vec<Vec<char>>) -> (r: Result<ManifestHeader, DatasetError>)
    requires
        pieces@.len() >= 8,
    ensures
        r matches Ok(h) ==> manifest_token_ok(h.case@) && forall|k: int| 0 <= k < 8 ==> #[trigger] pieces@[k]@ == h.lines()[k],
        r matches Err(e) ==> !count_refusal(e),
        forall|m: Manifest|
            #[trigger] header_matches(pieces@, m) && manifest_encodable(m) ==> (r matches Ok(h) && h.suite
                == m.suite && h.case@ == m.case@ && h.scenario == m.scenario && h.scale == m.scale
                && h.seed == m.seed && h.generator_version == m.generator_version
                && h.relation_count == m.relations@.len()),
{
    let ghost has_target = exists|m: Manifest| #[trigger] header_matches(pieces@, m) && manifest_encodable(m);
    let ghost target = choose|m: Manifest| #[trigger] header_matches(pieces@, m) && manifest_encodable(m);
    proof {
        if has_target {
            lemma_manifest_lines_plain(target);
            assert forall|k: int| 0 <= k < 8 implies split_on(#[trigger] pieces@[k]@, '\t') == split_on(manifest_lines(target)[k], '\t') by {
                assert(manifest_lines(target)[k] == header_lines(target)[k]);
            }
            assert(target.relations@.len() == target.relations.len());
        }
    }
    let version = u64_text(FORMAT_VERSION as u64);
    expect_manifest_line(path, 1, &pieces[0], "mini-linq-dataset", version.as_str())?;

    let suite_value = manifest_value(path, 2, &pieces[1], "suite")?;
    proof {
        if has_target {
            assert(seq!["suite"@, suite_value@][1] == seq!["suite"@, target.suite.name_spec()][1]);
        }
    }
    let suite = if chars_equal_str(&suite_value, "classic") {
        Suite::Classic
    } else if chars_equal_str(&suite_value, "retail") {
        Suite::Retail
    } else {
        return Err(manifest_error(path, 2, ManifestProblem::UnknownSuite { value: chars_to_string(&suite_value) }));
    };
    assert(suite.name_spec() == suite_value@);

    let case_value = manifest_value(path, 3, &pieces[2], "case")?;
    proof {
        if has_target {
            assert(seq!["case"@, case_value@][1] == seq!["case"@, target.case@][1]);
        }
    }
    let case = chars_to_string(&case_value);
    validate_manifest_token(TokenContext::CaseName, &case)?;

    let scenario_value = manifest_value(path, 4, &pieces[3], "scenario")?;
    proof {
        if has_target {
            assert(seq!["scenario"@, scenario_value@][1] == seq!["scenario"@, target.scenario.name_spec()][1]);
        }
    }
    let scenario = if chars_equal_str(&scenario_value, "coverage") {
        Scenario::Coverage
    } else if chars_equal_str(&scenario_value, "empty-input") {
        Scenario::EmptyInput
    } else if chars_equal_str(&scenario_value, "no-match") {
        Scenario::NoMatch
    } else {
        return Err(manifest_error(path, 4, ManifestProblem::UnknownScenario { value: chars_to_string(&scenario_value) }));
    };
    assert(scenario.name_spec() == scenario_value@);

    let scale_value = manifest_value(path, 5, &pieces[4], "scale")?;
    proof {
        if has_target {
            assert(seq!["scale"@, scale_value@][1] == seq!["scale"@, target.scale.name_spec()][1]);
        }
    }
    let scale = if chars_equal_str(&scale_value, "tiny") {
        Scale::Tiny
    } else if chars_equal_str(&scale_value, "medium") {
        Scale::Medium
    } else if chars_equal_str(&scale_value, "large") {
        Scale::Large
    } else {
        return Err(manifest_error(path, 5, ManifestProblem::UnknownScale { value: chars_to_string(&scale_value) }));
    };
    assert(scale.name_spec() == scale_value@);

    let seed = parse_manifest_number(path, 6, &pieces[5], "seed", u64::MAX)?;
    let generator_version = parse_manifest_number(path, 7, &pieces[6], "generator-version", u32::MAX as u64)? as u32;
    let relation_count = parse_manifest_number(path, 8, &pieces[7], "relations", usize::MAX as u64)? as usize;
    let header = ManifestHeader { suite, case, scenario, scale, seed, generator_version, relation_count };
    proof {
        crate::split::lemma_join_split(pieces@[0]@, '\t');
        crate::split::lemma_join_split(pieces@[1]@, '\t');
        crate::split::lemma_join_split(pieces@[2]@, '\t');
        crate::split::lemma_join_split(pieces@[3]@, '\t');
        crate::split::lemma_join_split(pieces@[4]@, '\t');
        crate::split::lemma_join_split(pieces@[5]@, '\t');
        crate::split::lemma_join_split(pieces@[6]@, '\t');
        crate::split::lemma_join_split(pieces@[7]@, '\t');
        lemma_names_distinct();
        assert forall|m: Manifest| #[trigger] header_matches(pieces@, m) && manifest_encodable(m) implies header.suite
            == m.suite && header.case@ == m.case@ && header.scenario == m.scenario && header.scale == m.scale
            && header.seed == m.seed && header.generator_version == m.generator_version
            && header.relation_count == m.relations@.len() by {
            lemma_manifest_lines_plain(m);
            assert(manifest_lines(m)[1] == header_lines(m)[1]);
            assert(manifest_lines(m)[2] == header_lines(m)[2]);
            assert(manifest_lines(m)[3] == header_lines(m)[3]);
            assert(manifest_lines(m)[4] == header_lines(m)[4]);
            assert(manifest_lines(m)[5] == header_lines(m)[5]);
            assert(manifest_lines(m)[6] == header_lines(m)[6]);
            assert(manifest_lines(m)[7] == header_lines(m)[7]);
            assert(m.relations@.len() == m.relations.len());
            assert(pieces@[1]@ == header_lines(m)[1]);
            assert(pieces@[2]@ == header_lines(m)[2]);
            assert(pieces@[3]@ == header_lines(m)[3]);
            assert(pieces@[4]@ == header_lines(m)[4]);
            assert(pieces@[5]@ == header_lines(m)[5]);
            assert(pieces@[6]@ == header_lines(m)[6]);
            assert(pieces@[7]@ == header_lines(m)[7]);
            assert(seq!["seed"@, dec_nat(seed as nat)][1] == seq!["seed"@, dec_nat(m.seed as nat)][1]);
            lemma_dec_nat_injective(seed as nat, m.seed as nat);
            assert(seq!["generator-version"@, dec_nat(generator_version as nat)][1] == seq!["generator-version"@, dec_nat(m.generator_version as nat)][1]);
            lemma_dec_nat_injective(generator_version as nat, m.generator_version as nat);
            assert(seq!["relations"@, dec_nat(relation_count as nat)][1] == seq!["relations"@, dec_nat(m.relations@.len())][1]);
            lemma_dec_nat_injective(relation_count as nat, m.relations@.len());
            assert(seq!["suite"@, suite_value@][1] == seq!["suite"@, m.suite.name_spec()][1]);
            assert(seq!["case"@, case_value@][1] == seq!["case"@, m.case@][1]);
            assert(seq!["scenario"@, scenario_value@][1] == seq!["scenario"@, m.scenario.name_spec()][1]);
            assert(seq!["scale"@, scale_value@][1] == seq!["scale"@, m.scale.name_spec()][1]);
            assert(header.suite == m.suite);
            assert(header.case@ == m.case@);
            assert(header.scenario == m.scenario);
            assert(header.scale == m.scale);
            assert(header.seed == m.seed);
            assert(header.generator_version == m.generator_version);
            assert(header.relation_count == m.relations@.len());
        }
    }
    Ok(header)
}

/// Reads one `relation<TAB>name<TAB>arity<TAB>raw<TAB>distinct` line.
fn decode_relation_entry(path: &String, line_number: usize, line: &Vec<char>) -> (r: Result<
    RelationCardinality,
    DatasetError,
>)
    ensures
        r matches Ok(e) ==> line@ == tab_line(relation_fields(e)) && relation_name_ok(e.name@)
            && e.distinct_rows <= e.raw_rows,
        r matches Err(e) ==> !count_refusal(e),
        forall|c: RelationCardinality|
            #[trigger] tab_line(relation_fields(c)) == line@ && relation_name_ok(c.name@)
                && c.distinct_rows <= c.raw_rows ==> (r matches Ok(e) && same_cardinality(e, c)),
{
    let ghost has_target = exists|c: RelationCardinality| #[trigger] tab_line(relation_fields(c)) == line@ && relation_name_ok(c.name@)
        && c.distinct_rows <= c.raw_rows;
    let ghost target = choose|c: RelationCardinality| #[trigger] tab_line(relation_fields(c)) == line@ && relation_name_ok(c.name@)
        && c.distinct_rows <= c.raw_rows;
    let fields = split_chars(line.as_slice(), '\t');
    proof {
        if has_target {
            lemma_words_plain();
            lemma_token_plain(target.name@);
            lemma_dec_plain(target.arity as nat);
            lemma_dec_plain(target.raw_rows as nat);
            lemma_dec_plain(target.distinct_rows as nat);
            lemma_split_tab_line(relation_fields(target));
            let f = relation_fields(target);
            assert(pieces_view(fields@) == f);
            assert(pieces_view(fields@)[0] == fields@[0]@);
            assert(pieces_view(fields@)[1] == fields@[1]@);
            assert(pieces_view(fields@)[2] == fields@[2]@);
            assert(pieces_view(fields@)[3] == fields@[3]@);
            assert(pieces_view(fields@)[4] == fields@[4]@);
            assert(target.arity as u64 <= usize::MAX as u64);
            assert(target.raw_rows as u64 <= usize::MAX as u64);
            assert(target.distinct_rows as u64 <= usize::MAX as u64);
        }
    }
    if fields.len() != 5 || !chars_equal_str(&fields[0], "relation") {
        return Err(manifest_error(path, line_number, ManifestProblem::MalformedRelationEntry));
    }
    let name = chars_to_string(&fields[1]);
    validate_relation_name(&name)?;
    let arity = parse_number_field(path, line_number, "arity", &fields[2], usize::MAX as u64)? as usize;
    let raw_rows = parse_number_field(path, line_number, "raw rows", &fields[3], usize::MAX as u64)? as usize;
    let distinct_rows = parse_number_field(path, line_number, "distinct rows", &fields[4], usize::MAX as u64)? as usize;
    proof {
        if has_target {
            lemma_dec_nat_injective(arity as nat, target.arity as nat);
            lemma_dec_nat_injective(raw_rows as nat, target.raw_rows as nat);
            lemma_dec_nat_injective(distinct_rows as nat, target.distinct_rows as nat);
        }
    }
    if distinct_rows > raw_rows {
        return Err(manifest_error(path, line_number, ManifestProblem::DistinctExceedsRaw));
    }
    let entry = RelationCardinality { name, arity, raw_rows, distinct_rows };
    proof {
        assert(pieces_view(fields@) =~= relation_fields(entry));
        crate::split::lemma_join_split(line@, '\t');
        assert forall|c: RelationCardinality|
            #[trigger] tab_line(relation_fields(c)) == line@ && relation_name_ok(c.name@)
                && c.distinct_rows <= c.raw_rows implies same_cardinality(entry, c) by {
            lemma_words_plain();
            lemma_token_plain(c.name@);
            lemma_dec_plain(c.arity as nat);
            lemma_dec_plain(c.raw_rows as nat);
            lemma_dec_plain(c.distinct_rows as nat);
            lemma_split_tab_line(relation_fields(c));
            lemma_token_plain(entry.name@);
            lemma_dec_plain(entry.arity as nat);
            lemma_dec_plain(entry.raw_rows as nat);
            lemma_dec_plain(entry.distinct_rows as nat);
            lemma_split_tab_line(relation_fields(entry));
            let fc = relation_fields(c);
            let fe = relation_fields(entry);
            assert(fc == fe);
            assert(fc[1] == fe[1]);
            assert(fc[2] == fe[2]);
            assert(fc[3] == fe[3]);
            assert(fc[4] == fe[4]);
            lemma_dec_nat_injective(arity as nat, c.arity as nat);
            lemma_dec_nat_injective(raw_rows as nat, c.raw_rows as nat);
            lemma_dec_nat_injective(distinct_rows as nat, c.distinct_rows as nat);
        }
    }
    Ok(entry)
}

/// Reads a manifest and rejects anything that is not the exact text of an
/// encodable manifest.
pub fn decode_manifest(path: &String, text: &str) -> (r: Result<Manifest, DatasetError>)
    ensures
        r matches Ok(m) ==> (manifest_encodable(m) && manifest_text(m) == text@),
        forall|m: Manifest|
            #[trigger] manifest_text(m) == text@ && manifest_encodable(m) ==> (r matches Ok(d)
                && same_manifest(d, m)),
        !(text@.len() > 0 && text@.last() == '\n') ==> (r matches Err(
            DatasetError::Manifest { line: l, problem: ManifestProblem::MissingFinalNewline, .. },
        ) && l == 1),
        r matches Err(DatasetError::Manifest { line: l, problem: ManifestProblem::EntryCountMismatch { declared, found }, .. }) ==> {
            let lines = split_on(text@, '\n');
            &&& l == lines.len()
            &&& found == lines.len() - 9
            &&& found != declared
            &&& lines[7] == tab_line(seq!["relations"@, dec_nat(declared as nat)])
        },
        forall|m: Manifest|
            #[trigger] header_text_matches(text@, m) && manifest_encodable(m) && text@.last() == '\n'
                && split_on(text@, '\n').len() - 9 != m.relations@.len() ==> (r matches Err(DatasetError::Manifest {
                line: l,
                problem: ManifestProblem::EntryCountMismatch { declared, found },
                ..
            }) && l == split_on(text@, '\n').len() && declared == m.relations@.len() && found == split_on(text@, '\n').len() - 9),
{
    let chars = chars_of(text);
    let ghost has_target = exists|m: Manifest| #[trigger] manifest_text(m) == text@ && manifest_encodable(m);
    let ghost target = choose|m: Manifest| #[trigger] manifest_text(m) == text@ && manifest_encodable(m);
    proof {
        if has_target {
            lemma_manifest_lines_plain(target);
            lemma_split_manifest_text(target);
            crate::dataset::lemma_join_push(manifest_lines(target), Seq::<char>::empty(), '\n');
            assert(text@ == join_with(manifest_lines(target), '\n').push('\n'));
            assert(text@.last() == '\n');
        }
    }
    if !(chars.len() > 0 && chars[chars.len() - 1] == '\n') {
        return Err(manifest_error(path, 1, ManifestProblem::MissingFinalNewline));
    }
    let pieces = split_chars(chars.as_slice(), '\n');
    proof {
        crate::split::lemma_split_len(text@, '\n');
        crate::dataset::lemma_split_last_empty(text@, '\n');
    }
    let line_count = pieces.len() - 1;
    proof {
        assert forall|m: Manifest| #[trigger] header_text_matches(text@, m) implies header_matches(pieces@, m) by {
            assert forall|k: int| 0 <= k < 8 implies #[trigger] pieces@[k]@ == header_lines(m)[k] by {
                assert(pieces_view(pieces@)[k] == pieces@[k]@);
            }
        }
    }
    if line_count < 8 {
        return Err(manifest_error(path, line_count + 1, ManifestProblem::Truncated));
    }
    proof {
        if has_target {
            assert forall|k: int| 0 <= k < 8 implies #[trigger] pieces@[k]@ == header_lines(target)[k] by {
                assert(pieces_view(pieces@)[k] == pieces@[k]@);
                assert(manifest_lines(target)[k] == header_lines(target)[k]);
            }
            assert(header_matches(pieces@, target));
        }
    }
    let header = decode_header(path, &pieces)?;
    proof {
        assert(pieces_view(pieces@)[7] == pieces@[7]@);
        assert(header.lines()[7] == tab_line(seq!["relations"@, dec_nat(header.relation_count as nat)]));
    }
    if line_count - 8 != header.relation_count {
        return Err(manifest_error(path, line_count + 1, ManifestProblem::EntryCountMismatch {
            declared: header.relation_count,
            found: line_count - 8,
        }));
    }
    let mut relations: Vec<RelationCardinality> = Vec::new();
    for offset in 0..header.relation_count
        invariant
            line_count == pieces@.len() - 1,
            line_count == 8 + header.relation_count,
            pieces_view(pieces@) == split_on(text@, '\n'),
            relations@.len() == offset,
            forall|k: int|
                0 <= k < offset ==> {
                    &&& #[trigger] pieces@[k + 8]@ == tab_line(relation_fields(relations@[k]))
                    &&& relation_name_ok(relations@[k].name@)
                    &&& relations@[k].distinct_rows <= relations@[k].raw_rows
                },
            text@.len() > 0 && text@.last() == '\n',
            has_target == exists|m: Manifest| #[trigger] manifest_text(m) == text@ && manifest_encodable(m),
            has_target ==> manifest_text(target) == text@ && manifest_encodable(target),
            has_target ==> split_on(text@, '\n') == manifest_lines(target).push(Seq::<char>::empty()),
            has_target ==> header.relation_count == target.relations@.len(),
            forall|m: Manifest| #[trigger] header_text_matches(text@, m) && manifest_encodable(m) ==> m.relations@.len() == header.relation_count,
    {
        let line_number = offset + 9;
        proof {
            assert(pieces_view(pieces@)[offset + 8] == pieces@[offset + 8]@);
            if has_target {
                assert(manifest_lines(target)[offset + 8] == relation_lines(target.relations@)[offset as int]);
                let t = target.relations@[offset as int];
                assert(tab_line(relation_fields(t)) == pieces@[offset + 8]@);
                assert(relation_name_ok(t.name@) && t.distinct_rows <= t.raw_rows);
            }
        }
        let entry = decode_relation_entry(path, line_number, &pieces[offset + 8])?;
        relations.push(entry);
        proof {
            assert(relations@[offset as int] == entry);
        }
    }
    let manifest = Manifest {
        suite: header.suite,
        case: header.case,
        scenario: header.scenario,
        scale: header.scale,
        seed: header.seed,
        generator_version: header.generator_version,
        relations,
    };
    proof {
        let lines = manifest_lines(manifest);
        assert forall|i: int| 0 <= i < manifest.relations@.len() implies {
            &&& relation_name_ok((#[trigger] manifest.relations@[i]).name@)
            &&& manifest.relations@[i].distinct_rows <= manifest.relations@[i].raw_rows
        } by {
            assert(pieces@[i + 8]@ == tab_line(relation_fields(manifest.relations@[i])));
        }
        assert(manifest_encodable(manifest));
        assert(pieces_view(pieces@) =~= lines.push(Seq::<char>::empty())) by {
            assert forall|k: int| 0 <= k < lines.len() implies pieces_view(pieces@)[k] == lines[k] by {
                assert(pieces_view(pieces@)[k] == pieces@[k]@);
                if k >= 8 {
                    assert(pieces@[(k - 8) + 8]@ == tab_line(relation_fields(manifest.relations@[k - 8])));
                    assert(lines[k] == relation_lines(manifest.relations@)[k - 8]);
                } else {
                    assert(lines[k] == header_lines(manifest)[k]);
                }
            }
        }
        crate::split::lemma_join_split(text@, '\n');
        assert forall|m: Manifest| #[trigger] manifest_text(m) == text@ && manifest_encodable(m) implies same_manifest(manifest, m) by {
            lemma_manifest_text_injective(manifest, m);
        }
    }
    Ok(manifest)
}

} // verus!
