//! Structural translation of a positive CQ to a visible DuckDB oracle query.
//!
//! The SQL deliberately remains independent of the compiler. Every raw input
//! is deduplicated in a CTE, every body occurrence receives its own alias, and
//! the result is explicitly distinct and ordered in head-column order.

use vstd::prelude::*;

use crate::analysis::{first_unknown, position_of};
use crate::model::{input_position, names_view, Atom, CqModule};
use crate::text::{dec_nat, push_char, push_str, push_u64};

verus! {

/// Why a query has no SQL translation.
#[derive(Debug)]
pub enum SqlError {
    /// A head variable occurs in no body atom.
    MissingHeadBinding(String),
    /// A body atom names no declared input.
    UnknownRelation(String),
}

impl SqlError {
    /// The sentence that reports the error.
    pub open spec fn message_text(&self) -> Seq<char> {
        match self {
            SqlError::MissingHeadBinding(variable) => "result variable `"@ + variable@ + "` has no SQL binding"@,
            SqlError::UnknownRelation(relation) => "body relation `"@ + relation@ + "` has no SQL input"@,
        }
    }

    /// The sentence that reports the error.
    pub fn message(&self) -> (r: String)
        ensures
            r@ == self.message_text(),
    {
        let mut out = String::new();
        match self {
            SqlError::MissingHeadBinding(variable) => {
                push_str(&mut out, "result variable `");
                push_str(&mut out, variable.as_str());
                push_str(&mut out, "` has no SQL binding");
            },
            SqlError::UnknownRelation(relation) => {
                push_str(&mut out, "body relation `");
                push_str(&mut out, relation.as_str());
                push_str(&mut out, "` has no SQL input");
            },
        }
        assert(out@ =~= self.message_text());
        out
    }
}

/// The characters of `s` with every double quote doubled.
pub open spec fn escape_quotes(s: Seq<char>) -> Seq<char>
    decreases s.len(),
{
    if s.len() == 0 {
        Seq::empty()
    } else {
        escape_quotes(s.drop_last()) + if s.last() == '"' {
            seq!['"', '"']
        } else {
            seq![s.last()]
        }
    }
}

/// A double-quoted SQL identifier.
pub open spec fn quoted(s: Seq<char>) -> Seq<char> {
    seq!['"'] + escape_quotes(s) + seq!['"']
}

/// Pieces with `sep` between consecutive ones.
pub open spec fn join_sep(pieces: Seq<Seq<char>>, sep: Seq<char>) -> Seq<char>
    decreases pieces.len(),
{
    if pieces.len() == 0 {
        Seq::empty()
    } else if pieces.len() == 1 {
        pieces[0]
    } else {
        join_sep(pieces.drop_last(), sep) + sep + pieces.last()
    }
}

/// The table that holds input `index` as loaded.
pub open spec fn raw_table_name_spec(index: nat) -> Seq<char> {
    "mini-linq/raw/"@ + dec_nat(index)
}

/// The deduplicated view of input `index`.
pub open spec fn normalized_table_name_spec(index: nat) -> Seq<char> {
    "mini-linq/input/"@ + dec_nat(index)
}

/// The name of column `column` of a loaded table.
pub open spec fn column_name(column: nat) -> Seq<char> {
    "c"@ + dec_nat(column)
}

/// The alias of body atom `atom`.
pub open spec fn alias_spec(atom: nat) -> Seq<char> {
    quoted("a"@ + dec_nat(atom))
}

/// The SQL expression for column `column` of body atom `atom`.
pub open spec fn binding_spec(atom: nat, column: nat) -> Seq<char> {
    alias_spec(atom) + "."@ + quoted(column_name(column))
}

/// Joining one more piece adds the separator, unless it is the first, and the piece.
pub proof fn lemma_join_sep_push(pieces: Seq<Seq<char>>, sep: Seq<char>, x: Seq<char>)
    ensures
        join_sep(pieces.push(x), sep) == if pieces.len() == 0 {
            x
        } else {
            join_sep(pieces, sep) + sep + x
        },
{
    assert(pieces.push(x).drop_last() == pieces);
}

/// Appends `identifier` in double quotes, doubling every inner double quote.
fn push_quoted(output: &mut String, identifier: &Vec<char>)
    ensures
        final(output)@ == old(output)@ + quoted(identifier@),
{
    let ghost start = output@;
    push_char(output, '"');
    for i in 0..identifier.len()
        invariant
            output@ == start + seq!['"'] + escape_quotes(identifier@.take(i as int)),
    {
        let c = identifier[i];
        proof {
            assert(identifier@.take(i + 1).drop_last() =~= identifier@.take(i as int));
            assert(identifier@.take(i + 1).last() == c);
        }
        if c == '"' {
            push_char(output, '"');
            push_char(output, '"');
        } else {
            push_char(output, c);
        }
        proof {
            assert(output@ =~= start + seq!['"'] + escape_quotes(identifier@.take(i + 1)));
        }
    }
    push_char(output, '"');
    assert(identifier@.take(identifier@.len() as int) == identifier@);
    assert(output@ =~= start + quoted(identifier@));
}

/// A double-quoted SQL identifier, an inner `"` doubled.
pub fn quoted_identifier(identifier: &str) -> (r: String)
    ensures
        r@ == quoted(identifier@),
{
    let mut output = String::new();
    push_quoted(&mut output, &crate::text::chars_of(identifier));
    assert(output@ =~= quoted(identifier@));
    output
}

/// The private DuckDB table populated from the Nth declared input.
///
/// The slash makes this quoted SQL name impossible to confuse with a MiniLinq
/// relation identifier.
pub fn raw_table_name(input_index: usize) -> (r: String)
    ensures
        r@ == raw_table_name_spec(input_index as nat),
{
    let mut name = String::from_str("mini-linq/raw/");
    push_u64(&mut name, input_index as u64);
    name
}

/// The column declarations of a raw input table: `c0 INTEGER NOT NULL`, ...
pub open spec fn raw_columns(arity: nat) -> Seq<char> {
    join_sep(Seq::new(arity, |c: int| "c"@ + dec_nat(c as nat) + " INTEGER NOT NULL"@), ", "@)
}

/// The statement that creates the raw table of the Nth declared input.
pub open spec fn raw_table_ddl_spec(index: nat, arity: nat) -> Seq<char> {
    "CREATE TABLE "@ + quoted(raw_table_name_spec(index)) + " ("@ + raw_columns(arity) + ");"@
}

/// The statement that creates the raw table of the Nth declared input, one
/// non-null integer column per declared column.
pub fn raw_table_ddl(input_index: usize, arity: usize) -> (r: String)
    ensures
        r@ == raw_table_ddl_spec(input_index as nat, arity as nat),
{
    let mut output = String::from_str("CREATE TABLE ");
    let name = raw_table_name(input_index);
    push_quoted(&mut output, &crate::text::chars_of(name.as_str()));
    push_str(&mut output, " (");
    let ghost start = output@;
    for column in 0..arity
        invariant
            output@ == start + join_sep(Seq::new(column as nat, |c: int| "c"@ + dec_nat(c as nat) + " INTEGER NOT NULL"@), ", "@),
    {
        let ghost p = Seq::new(column as nat, |c: int| "c"@ + dec_nat(c as nat) + " INTEGER NOT NULL"@);
        let ghost x = "c"@ + dec_nat(column as nat) + " INTEGER NOT NULL"@;
        if column != 0 {
            push_str(&mut output, ", ");
        }
        let ghost mid = output@;
        push_str(&mut output, "c");
        push_u64(&mut output, column as u64);
        push_str(&mut output, " INTEGER NOT NULL");
        proof {
            assert(output@ =~= mid + x);
            assert(Seq::new((column + 1) as nat, |c: int| "c"@ + dec_nat(c as nat) + " INTEGER NOT NULL"@) =~= p.push(x));
            lemma_join_sep_push(p, ", "@, x);
            if column == 0 {
                assert(join_sep(p, ", "@) == Seq::<char>::empty());
            }
        }
    }
    push_str(&mut output, ");");
    output
}

/// The deduplicated table of the Nth declared input.
fn normalized_table_name(input_index: usize) -> (r: String)
    ensures
        r@ == normalized_table_name_spec(input_index as nat),
{
    let mut name = String::from_str("mini-linq/input/");
    push_u64(&mut name, input_index as u64);
    name
}

/// Appends a name made of a prefix and a number, quoted.
fn push_quoted_numbered(output: &mut String, prefix: &str, n: usize)
    ensures
        final(output)@ == old(output)@ + quoted(prefix@ + dec_nat(n as nat)),
{
    let mut name = String::from_str(prefix);
    push_u64(&mut name, n as u64);
    push_quoted(output, &crate::text::chars_of(name.as_str()));
}

/// The alias of one body occurrence.
fn alias_sql(atom: usize) -> (r: String)
    ensures
        r@ == alias_spec(atom as nat),
{
    let mut output = String::new();
    push_quoted_numbered(&mut output, "a", atom);
    assert(output@ =~= alias_spec(atom as nat));
    output
}

/// One column of one body occurrence.
fn binding_sql(atom: usize, column: usize) -> (r: String)
    ensures
        r@ == binding_spec(atom as nat, column as nat),
{
    let mut output = alias_sql(atom);
    push_str(&mut output, ".");
    push_quoted_numbered(&mut output, "c", column);
    output
}

/// The quoted column names `c0` through `c{arity-1}`.
pub open spec fn column_list(arity: nat) -> Seq<char> {
    join_sep(Seq::new(arity, |c: int| quoted(column_name(c as nat))), ", "@)
}

/// Appends the quoted column names of a relation of the given arity.
fn push_column_list(output: &mut String, arity: usize)
    ensures
        final(output)@ == old(output)@ + column_list(arity as nat),
{
    let ghost start = output@;
    for column in 0..arity
        invariant
            output@ == start + join_sep(Seq::new(column as nat, |c: int| quoted(column_name(c as nat))), ", "@),
    {
        let ghost before = output@;
        if column != 0 {
            push_str(output, ", ");
        }
        push_quoted_numbered(output, "c", column);
        proof {
            let p = Seq::new(column as nat, |c: int| quoted(column_name(c as nat)));
            assert(Seq::new((column + 1) as nat, |c: int| quoted(column_name(c as nat))) =~= p.push(quoted(column_name(column as nat))));
            lemma_join_sep_push(p, ", "@, quoted(column_name(column as nat)));
            if column == 0 {
                assert(p.len() == 0);
                assert(join_sep(p, ", "@) == Seq::<char>::empty());
            }
            assert(output@ =~= start + join_sep(Seq::new((column + 1) as nat, |c: int| quoted(column_name(c as nat))), ", "@));
        }
    }
}

/// The CTE that deduplicates the Nth input.
pub open spec fn cte_spec(index: nat, arity: nat) -> Seq<char> {
    "  "@ + quoted(normalized_table_name_spec(index)) + " AS (\n    SELECT DISTINCT "@ + column_list(arity)
        + "\n    FROM "@ + quoted(raw_table_name_spec(index)) + "\n  )"@
}

/// One CTE per declared input, separated by commas.
pub open spec fn ctes_spec(inputs: Seq<crate::model::RelationDecl>) -> Seq<char> {
    join_sep(Seq::new(inputs.len(), |i: int| cte_spec(i as nat, inputs[i].arity as nat)), ",\n"@)
}

/// Appends one CTE per declared input.
fn push_ctes(output: &mut String, inputs: &Vec<crate::model::RelationDecl>)
    ensures
        final(output)@ == old(output)@ + ctes_spec(inputs@),
{
    let ghost start = output@;
    for i in 0..inputs.len()
        invariant
            output@ == start + join_sep(Seq::new(i as nat, |j: int| cte_spec(j as nat, inputs@[j].arity as nat)), ",\n"@),
    {
        let ghost before = output@;
        if i != 0 {
            push_str(output, ",\n");
        }
        let ghost mid = output@;
        push_str(output, "  ");
        let normalized = normalized_table_name(i);
        push_quoted(output, &crate::text::chars_of(normalized.as_str()));
        push_str(output, " AS (\n    SELECT DISTINCT ");
        push_column_list(output, inputs[i].arity);
        push_str(output, "\n    FROM ");
        let raw = raw_table_name(i);
        push_quoted(output, &crate::text::chars_of(raw.as_str()));
        push_str(output, "\n  )");
        proof {
            let p = Seq::new(i as nat, |j: int| cte_spec(j as nat, inputs@[j].arity as nat));
            let x = cte_spec(i as nat, inputs@[i as int].arity as nat);
            assert(output@ =~= mid + x);
            assert(Seq::new((i + 1) as nat, |j: int| cte_spec(j as nat, inputs@[j].arity as nat)) =~= p.push(x));
            lemma_join_sep_push(p, ",\n"@, x);
            if i == 0 {
                assert(join_sep(p, ",\n"@) == Seq::<char>::empty());
            }
            assert(output@ =~= start + join_sep(p.push(x), ",\n"@));
        }
    }
}

/// Every `(atom, column)` occurrence of the body, in body then column order.
pub open spec fn occurrences(atoms: Seq<Atom>) -> Seq<(nat, nat)>
    decreases atoms.len(),
{
    if atoms.len() == 0 {
        Seq::empty()
    } else {
        occurrences(atoms.drop_last()) + Seq::new(atoms.last().vars().len(), |c: int| ((atoms.len() - 1) as nat, c as nat))
    }
}

/// The variable at an occurrence.
pub open spec fn variable_at(atoms: Seq<Atom>, o: (nat, nat)) -> Seq<char> {
    atoms[o.0 as int].vars()[o.1 as int]
}

/// The first occurrence of `v` among `s`.
pub open spec fn first_binding(s: Seq<(nat, nat)>, atoms: Seq<Atom>, v: Seq<char>) -> Option<(nat, nat)>
    decreases s.len(),
{
    if s.len() == 0 {
        None
    } else {
        let f = first_binding(s.drop_last(), atoms, v);
        if f is Some {
            f
        } else if variable_at(atoms, s.last()) == v {
            Some(s.last())
        } else {
            None
        }
    }
}

/// One equality per repeated occurrence: it equals the variable's first occurrence.
pub open spec fn equalities(s: Seq<(nat, nat)>, atoms: Seq<Atom>) -> Seq<Seq<char>>
    decreases s.len(),
{
    if s.len() == 0 {
        Seq::empty()
    } else {
        let init = equalities(s.drop_last(), atoms);
        match first_binding(s.drop_last(), atoms, variable_at(atoms, s.last())) {
            Some(p) => init.push(binding_spec(s.last().0, s.last().1) + " = "@ + binding_spec(p.0, p.1)),
            None => init,
        }
    }
}

proof fn lemma_occurrences_bounds(atoms: Seq<Atom>)
    ensures
        forall|i: int| 0 <= i < occurrences(atoms).len() ==> {
            &&& (#[trigger] occurrences(atoms)[i]).0 < atoms.len()
            &&& occurrences(atoms)[i].1 < atoms[occurrences(atoms)[i].0 as int].vars().len()
        },
    decreases atoms.len(),
{
    if atoms.len() > 0 {
        lemma_occurrences_bounds(atoms.drop_last());
        let init = occurrences(atoms.drop_last());
        assert forall|i: int| 0 <= i < occurrences(atoms).len() implies {
            &&& (#[trigger] occurrences(atoms)[i]).0 < atoms.len()
            &&& occurrences(atoms)[i].1 < atoms[occurrences(atoms)[i].0 as int].vars().len()
        } by {
            if i < init.len() {
                assert(occurrences(atoms)[i] == init[i]);
                assert(atoms.drop_last()[init[i].0 as int] == atoms[init[i].0 as int]);
            }
        }
    }
}

/// A recorded first occurrence of a variable.
struct Binding {
    name: String,
    atom: usize,
    column: usize,
}

spec fn has_binding(bindings: Seq<Binding>, v: Seq<char>) -> bool {
    exists|i: int| 0 <= i < bindings.len() && (#[trigger] bindings[i]).name@ == v
}

fn find_binding(bindings: &Vec<Binding>, name: &String) -> (r: Option<usize>)
    ensures
        match r {
            Some(i) => i < bindings@.len() && bindings@[i as int].name@ == name@,
            None => !has_binding(bindings@, name@),
        },
{
    for i in 0..bindings.len()
        invariant
            forall|k: int| 0 <= k < i ==> (#[trigger] bindings@[k]).name@ != name@,
    {
        if bindings[i].name == *name {
            return Some(i);
        }
    }
    None
}

/// The first occurrence of every variable, and the equalities of the repeated ones.
fn collect_bindings(atoms: &Vec<Atom>) -> (r: (Vec<Binding>, Vec<String>))
    ensures
        forall|i: int| 0 <= i < r.0@.len() ==> first_binding(occurrences(atoms@), atoms@, (#[trigger] r.0@[i]).name@) == Some((r.0@[i].atom as nat, r.0@[i].column as nat)),
        forall|v: Seq<char>| #[trigger] first_binding(occurrences(atoms@), atoms@, v) is Some ==> has_binding(r.0@, v),
        names_view(r.1@) == equalities(occurrences(atoms@), atoms@),
{
    let mut bindings: Vec<Binding> = Vec::new();
    let mut equalities_out: Vec<String> = Vec::new();
    let ghost all = occurrences(atoms@);
    proof {
        lemma_occurrences_bounds(atoms@);
    }
    let ghost mut scanned: Seq<(nat, nat)> = Seq::empty();
    for k in 0..atoms.len()
        invariant
            all == occurrences(atoms@),
            scanned == occurrences(atoms@.take(k as int)),
            forall|i: int| 0 <= i < bindings@.len() ==> first_binding(scanned, atoms@, (#[trigger] bindings@[i]).name@) == Some((bindings@[i].atom as nat, bindings@[i].column as nat)),
            forall|v: Seq<char>| #[trigger] first_binding(scanned, atoms@, v) is Some ==> has_binding(bindings@, v),
            names_view(equalities_out@) == equalities(scanned, atoms@),
    {
        let atom = &atoms[k];
        let ghost atom_start = scanned;
        for column in 0..atom.variables.len()
            invariant
                atom == &atoms@[k as int],
                k < atoms@.len(),
                scanned == atom_start + Seq::new(column as nat, |c: int| (k as nat, c as nat)),
                forall|i: int| 0 <= i < bindings@.len() ==> first_binding(scanned, atoms@, (#[trigger] bindings@[i]).name@) == Some((bindings@[i].atom as nat, bindings@[i].column as nat)),
                forall|v: Seq<char>| #[trigger] first_binding(scanned, atoms@, v) is Some ==> has_binding(bindings@, v),
                names_view(equalities_out@) == equalities(scanned, atoms@),
        {
            let name = &atom.variables[column];
            let o = Ghost((k as nat, column as nat));
            let ghost before = scanned;
            proof {
                scanned = scanned.push(o@);
                assert(scanned.drop_last() == before);
                assert(variable_at(atoms@, o@) == name@);
                assert(scanned =~= atom_start + Seq::new((column + 1) as nat, |c: int| (k as nat, c as nat)));
            }
            let ghost eq_before = equalities_out@;
            match find_binding(&bindings, name) {
                Some(i) => {
                    let previous = &bindings[i];
                    let mut equality = binding_sql(k, column);
                    push_str(&mut equality, " = ");
                    let right = binding_sql(previous.atom, previous.column);
                    push_str(&mut equality, right.as_str());
                    equalities_out.push(equality);
                    proof {
                        assert(first_binding(before, atoms@, name@) == Some((previous.atom as nat, previous.column as nat)));
                        assert(names_view(equalities_out@) =~= names_view(eq_before).push(equality@));
                        assert forall|v: Seq<char>| #[trigger] first_binding(scanned, atoms@, v) is Some implies has_binding(bindings@, v) by {
                            if first_binding(before, atoms@, v) is None {
                                assert(v == name@);
                            }
                        }
                    }
                },
                None => {
                    proof {
                        if first_binding(before, atoms@, name@) is Some {
                            assert(has_binding(bindings@, name@));
                        }
                    }
                    let ghost bindings_before = bindings@;
                    bindings.push(Binding { name: crate::model::clone_string(name), atom: k, column });
                    proof {
                        assert forall|i: int| 0 <= i < bindings@.len() implies first_binding(scanned, atoms@, (#[trigger] bindings@[i]).name@) == Some((bindings@[i].atom as nat, bindings@[i].column as nat)) by {
                            if i < bindings_before.len() {
                                assert(bindings@[i] == bindings_before[i]);
                            }
                        }
                        assert forall|v: Seq<char>| #[trigger] first_binding(scanned, atoms@, v) is Some implies has_binding(bindings@, v) by {
                            if v == name@ {
                                assert(bindings@[bindings_before.len() as int].name@ == v);
                            } else {
                                assert(first_binding(before, atoms@, v) is Some);
                                let j = choose|j: int| 0 <= j < bindings_before.len() && (#[trigger] bindings_before[j]).name@ == v;
                                assert(bindings@[j] == bindings_before[j]);
                            }
                        }
                    }
                },
            }
        }
        proof {
            assert(atoms@.take(k + 1).drop_last() =~= atoms@.take(k as int));
            assert(atoms@[k as int].vars().len() == atom.variables@.len());
            assert(occurrences(atoms@.take(k + 1)) =~= atom_start + Seq::new(atom.variables@.len(), |c: int| (k as nat, c as nat)));
        }
    }
    proof {
        assert(atoms@.take(atoms@.len() as int) == atoms@);
    }
    (bindings, equalities_out)
}

/// One result column: the first occurrence of the head variable, named after it.
pub open spec fn head_column(atoms: Seq<Atom>, v: Seq<char>) -> Seq<char> {
    let b = first_binding(occurrences(atoms), atoms, v)->0;
    "  "@ + binding_spec(b.0, b.1) + " AS "@ + quoted(v)
}

/// Every head variable occurs in the body.
pub open spec fn head_bound(module: CqModule) -> bool {
    forall|p: int| 0 <= p < module.head.vars().len() ==> first_binding(occurrences(module.body@), module.body@, #[trigger] module.head.vars()[p]) is Some
}

/// The first head variable that occurs in no body atom.
pub open spec fn first_unbound_head(module: CqModule) -> int {
    choose|p: int| 0 <= p < module.head.vars().len() && first_binding(occurrences(module.body@), module.body@, #[trigger] module.head.vars()[p]) is None
        && forall|q: int| 0 <= q < p ==> first_binding(occurrences(module.body@), module.body@, #[trigger] module.head.vars()[q]) is Some
}

/// The FROM item of one body occurrence.
pub open spec fn from_item(inputs: Seq<crate::model::RelationDecl>, atoms: Seq<Atom>, i: int) -> Seq<char> {
    quoted(normalized_table_name_spec(position_of(inputs, atoms[i]) as nat)) + " AS "@ + alias_spec(i as nat)
}

/// The whole SQL text of a query whose head is bound and whose relations are declared.
pub open spec fn translation(module: CqModule) -> Seq<char> {
    let atoms = module.body@;
    let inputs = module.inputs@;
    let head = module.head.vars();
    let eqs = equalities(occurrences(atoms), atoms);
    "WITH\n"@ + ctes_spec(inputs) + "\nSELECT DISTINCT\n"@
        + join_sep(Seq::new(head.len(), |p: int| head_column(atoms, head[p])), ",\n"@) + "\nFROM "@
        + join_sep(Seq::new(atoms.len(), |i: int| from_item(inputs, atoms, i)), "\nCROSS JOIN "@)
        + (if eqs.len() == 0 { Seq::<char>::empty() } else { "\nWHERE "@ + join_sep(eqs, "\n  AND "@) })
        + "\nORDER BY "@ + join_sep(Seq::new(head.len(), |p: int| dec_nat((p + 1) as nat)), ", "@) + ";\n"@
}

/// Translate one positive CQ: every input deduplicated in a CTE, one alias
/// per body occurrence, equalities for repeated variables, and the distinct
/// head in head-column order.
pub fn translate(module: &CqModule) -> (r: Result<String, SqlError>)
    ensures
        head_bound(*module) && first_unknown(module.body@, module.inputs@) == module.body@.len() ==> (r matches Ok(text) && text@ == translation(*module)),
        !head_bound(*module) ==> (r matches Err(SqlError::MissingHeadBinding(v)) && v@ == module.head.vars()[first_unbound_head(*module)]),
        head_bound(*module) && first_unknown(module.body@, module.inputs@) < module.body@.len() ==> (r matches Err(SqlError::UnknownRelation(name))
            && name@ == module.body@[first_unknown(module.body@, module.inputs@)].rel()),
{
    let atoms = &module.body;
    let inputs = &module.inputs;
    let head = &module.head.variables;
    let ghost head_vars = module.head.vars();
    let mut output = String::from_str("WITH\n");
    push_ctes(&mut output, inputs);
    let (bindings, equality_texts) = collect_bindings(atoms);
    push_str(&mut output, "\nSELECT DISTINCT\n");
    let ghost head_start = output@;
    for position in 0..head.len()
        invariant
            head_vars == names_view(head@),
            head_vars == module.head.vars(),
            atoms == &module.body,
            forall|i: int| 0 <= i < bindings@.len() ==> first_binding(occurrences(atoms@), atoms@, (#[trigger] bindings@[i]).name@) == Some((bindings@[i].atom as nat, bindings@[i].column as nat)),
            forall|v: Seq<char>| #[trigger] first_binding(occurrences(atoms@), atoms@, v) is Some ==> has_binding(bindings@, v),
            forall|q: int| 0 <= q < position ==> first_binding(occurrences(atoms@), atoms@, #[trigger] head_vars[q]) is Some,
            output@ == head_start + join_sep(Seq::new(position as nat, |p: int| head_column(atoms@, head_vars[p])), ",\n"@),
    {
        let ghost before = output@;
        if position != 0 {
            push_str(&mut output, ",\n");
        }
        let ghost mid = output@;
        let name = &head[position];
        assert(head_vars[position as int] == name@);
        let index = match find_binding(&bindings, name) {
            Some(index) => index,
            None => {
                proof {
                    assert(first_binding(occurrences(atoms@), atoms@, head_vars[position as int]) is None);
                    assert(!head_bound(*module));
                    assert(0 <= position < head_vars.len() && first_binding(occurrences(module.body@), module.body@, module.head.vars()[position as int]) is None
                        && forall|q: int| 0 <= q < position ==> first_binding(occurrences(module.body@), module.body@, #[trigger] module.head.vars()[q]) is Some);
                    let p = first_unbound_head(*module);
                    assert(0 <= p < head_vars.len() && first_binding(occurrences(atoms@), atoms@, head_vars[p]) is None
                        && forall|q: int| 0 <= q < p ==> first_binding(occurrences(atoms@), atoms@, #[trigger] head_vars[q]) is Some);
                    if p < position {
                    } else if p > position {
                        assert(first_binding(occurrences(atoms@), atoms@, head_vars[position as int]) is Some);
                    }
                }
                return Err(SqlError::MissingHeadBinding(crate::model::clone_string(name)));
            },
        };
        let binding = binding_sql(bindings[index].atom, bindings[index].column);
        push_str(&mut output, "  ");
        push_str(&mut output, binding.as_str());
        push_str(&mut output, " AS ");
        push_quoted(&mut output, &crate::text::chars_of(name.as_str()));
        proof {
            let p = Seq::new(position as nat, |q: int| head_column(atoms@, head_vars[q]));
            let x = head_column(atoms@, head_vars[position as int]);
            assert(output@ =~= mid + x);
            assert(Seq::new((position + 1) as nat, |q: int| head_column(atoms@, head_vars[q])) =~= p.push(x));
            lemma_join_sep_push(p, ",\n"@, x);
            if position == 0 {
                assert(join_sep(p, ",\n"@) == Seq::<char>::empty());
            }
            assert(output@ =~= head_start + join_sep(p.push(x), ",\n"@));
        }
    }
    proof {
        assert(head_bound(*module));
    }
    push_str(&mut output, "\nFROM ");
    proof {
        crate::analysis::lemma_first_unknown(atoms@, inputs@);
    }
    let ghost from_start = output@;
    for atom_index in 0..atoms.len()
        invariant
            head_bound(*module),
            atoms == &module.body,
            inputs == &module.inputs,
            forall|j: int| 0 <= j < atom_index ==> input_position(inputs@, (#[trigger] atoms@[j]).rel()) is Some,
            first_unknown(atoms@, inputs@) >= atom_index,
            forall|j: int| 0 <= j < first_unknown(atoms@, inputs@) ==> input_position(inputs@, (#[trigger] atoms@[j]).rel()) is Some,
            first_unknown(atoms@, inputs@) < atoms@.len() ==> input_position(inputs@, atoms@[first_unknown(atoms@, inputs@)].rel()) is None,
            0 <= first_unknown(atoms@, inputs@) <= atoms@.len(),
            output@ == from_start + join_sep(Seq::new(atom_index as nat, |i: int| from_item(inputs@, atoms@, i)), "\nCROSS JOIN "@),
    {
        let ghost before = output@;
        if atom_index != 0 {
            push_str(&mut output, "\nCROSS JOIN ");
        }
        let ghost mid = output@;
        let input_index = match crate::model::find_input(inputs, &atoms[atom_index].relation) {
            Some(input_index) => input_index,
            None => {
                proof {
                    assert(first_unknown(atoms@, inputs@) == atom_index);
                }
                return Err(SqlError::UnknownRelation(crate::model::clone_string(&atoms[atom_index].relation)));
            },
        };
        let normalized = normalized_table_name(input_index);
        push_quoted(&mut output, &crate::text::chars_of(normalized.as_str()));
        push_str(&mut output, " AS ");
        let alias = alias_sql(atom_index);
        push_str(&mut output, alias.as_str());
        proof {
            let p = Seq::new(atom_index as nat, |i: int| from_item(inputs@, atoms@, i));
            let x = from_item(inputs@, atoms@, atom_index as int);
            assert(output@ =~= mid + x);
            assert(Seq::new((atom_index + 1) as nat, |i: int| from_item(inputs@, atoms@, i)) =~= p.push(x));
            lemma_join_sep_push(p, "\nCROSS JOIN "@, x);
            if atom_index == 0 {
                assert(join_sep(p, "\nCROSS JOIN "@) == Seq::<char>::empty());
            }
            assert(output@ =~= from_start + join_sep(p.push(x), "\nCROSS JOIN "@));
        }
    }
    let ghost where_start = output@;
    let ghost eqs = names_view(equality_texts@);
    if equality_texts.len() > 0 {
        push_str(&mut output, "\nWHERE ");
        let ghost list_start = output@;
        for position in 0..equality_texts.len()
            invariant
                eqs == names_view(equality_texts@),
                output@ == list_start + join_sep(eqs.take(position as int), "\n  AND "@),
        {
            if position != 0 {
                push_str(&mut output, "\n  AND ");
            }
            push_str(&mut output, equality_texts[position].as_str());
            proof {
                assert(eqs.take(position + 1) =~= eqs.take(position as int).push(eqs[position as int]));
                lemma_join_sep_push(eqs.take(position as int), "\n  AND "@, eqs[position as int]);
                if position == 0 {
                    assert(join_sep(eqs.take(0), "\n  AND "@) == Seq::<char>::empty());
                }
                assert(eqs[position as int] == equality_texts@[position as int]@);
            }
        }
        assert(eqs.take(eqs.len() as int) == eqs);
    }
    push_str(&mut output, "\nORDER BY ");
    let ghost order_start = output@;
    let count = head.len();
    for position in 0..count
        invariant
            count == head_vars.len(),
            output@ == order_start + join_sep(Seq::new(position as nat, |p: int| dec_nat((p + 1) as nat)), ", "@),
    {
        if position != 0 {
            push_str(&mut output, ", ");
        }
        push_u64(&mut output, (position + 1) as u64);
        proof {
            let p = Seq::new(position as nat, |q: int| dec_nat((q + 1) as nat));
            let x = dec_nat((position + 1) as nat);
            assert(Seq::new((position + 1) as nat, |q: int| dec_nat((q + 1) as nat)) =~= p.push(x));
            lemma_join_sep_push(p, ", "@, x);
            if position == 0 {
                assert(join_sep(p, ", "@) == Seq::<char>::empty());
            }
        }
    }
    push_str(&mut output, ";\n");
    proof {
        assert(output@ =~= translation(*module));
    }
    Ok(output)
}

/// `piece` occurs in `text` as a contiguous run of characters.
pub open spec fn occurs_in(piece: Seq<char>, text: Seq<char>) -> bool {
    exists|k: int| 0 <= k <= text.len() - piece.len() && #[trigger] text.subrange(k, k + piece.len()) == piece
}

/// Every piece stands whole in the joined text: the text is what comes
/// before it, the piece, and what comes after it.
proof fn lemma_join_sep_has_piece(pieces: Seq<Seq<char>>, sep: Seq<char>, i: int) -> (r: (Seq<char>, Seq<char>))
    requires
        0 <= i < pieces.len(),
    ensures
        join_sep(pieces, sep) == r.0 + pieces[i] + r.1,
    decreases pieces.len(),
{
    if pieces.len() == 1 {
        assert(join_sep(pieces, sep) =~= Seq::<char>::empty() + pieces[i] + Seq::<char>::empty());
        (Seq::<char>::empty(), Seq::<char>::empty())
    } else if i == pieces.len() - 1 {
        let before = join_sep(pieces.drop_last(), sep) + sep;
        assert(join_sep(pieces, sep) =~= before + pieces[i] + Seq::<char>::empty());
        (before, Seq::<char>::empty())
    } else {
        let (before, rest) = lemma_join_sep_has_piece(pieces.drop_last(), sep, i);
        let after = rest + sep + pieces.last();
        assert(join_sep(pieces, sep) =~= before + pieces[i] + after);
        (before, after)
    }
}

/// Each declared input is deduplicated from its own raw table: the SQL text
/// names the CTE of input `i`, selects the input's columns distinctly, and
/// reads them from the raw table of input `i`, the table that
/// `raw_table_ddl(i, _)` creates.
#[verifier::rlimit(60)]
#[verifier::spinoff_prover]
pub proof fn each_input_is_deduplicated_from_its_raw_table(module: CqModule, i: int)
    requires
        0 <= i < module.inputs@.len(),
    ensures
        occurs_in(
            quoted(normalized_table_name_spec(i as nat)) + " AS (\n    SELECT DISTINCT "@
                + column_list(module.inputs@[i].arity as nat) + "\n    FROM "@ + quoted(raw_table_name_spec(i as nat)),
            translation(module),
        ),
{
    let inputs = module.inputs@;
    let piece = quoted(normalized_table_name_spec(i as nat)) + " AS (\n    SELECT DISTINCT "@
        + column_list(inputs[i].arity as nat) + "\n    FROM "@ + quoted(raw_table_name_spec(i as nat));
    let pieces = Seq::new(inputs.len(), |j: int| cte_spec(j as nat, inputs[j].arity as nat));
    let (a, b) = lemma_join_sep_has_piece(pieces, ",\n"@, i);
    assert(pieces[i] =~= "  "@ + piece + "\n  )"@);
    let rest = lemma_translation_opens_with_ctes(module);
    let text = translation(module);
    let before = "WITH\n"@ + a + "  "@;
    assert(ctes_spec(inputs) == join_sep(pieces, ",\n"@));
    assert(text =~= before + piece + ("\n  )"@ + b + rest));
    assert(text.subrange(before.len() as int, (before.len() + piece.len()) as int) =~= piece);
}

/// Each body atom whose relation is declared is read, under its own alias,
/// from the CTE of an input declared with that relation's name.
#[verifier::rlimit(60)]
#[verifier::spinoff_prover]
pub proof fn each_body_atom_reads_the_input_it_names(module: CqModule, i: int)
    requires
        0 <= i < module.body@.len(),
        exists|j: int| 0 <= j < module.inputs@.len() && (#[trigger] module.inputs@[j]).name@ == module.body@[i].rel(),
    ensures
        exists|k: int|
            0 <= k < module.inputs@.len() && (#[trigger] module.inputs@[k]).name@ == module.body@[i].rel() && occurs_in(
                quoted(normalized_table_name_spec(k as nat)) + " AS "@ + alias_spec(i as nat),
                translation(module),
            ),
{
    let atoms = module.body@;
    let inputs = module.inputs@;
    crate::model::lemma_input_position(inputs, atoms[i].rel());
    let k = position_of(inputs, atoms[i]);
    let piece = quoted(normalized_table_name_spec(k as nat)) + " AS "@ + alias_spec(i as nat);
    let items = Seq::new(atoms.len(), |j: int| from_item(inputs, atoms, j));
    let (a, b) = lemma_join_sep_has_piece(items, "\nCROSS JOIN "@, i);
    assert(items[i] == piece);
    let (head, tail) = lemma_translation_from_items(module);
    let text = translation(module);
    let before = head + a;
    assert(text =~= before + piece + (b + tail));
    assert(text.subrange(before.len() as int, (before.len() + piece.len()) as int) =~= piece);
    assert(inputs[k].name@ == atoms[i].rel());
}

/// A first occurrence found among `s` is one of them, and holds the variable.
proof fn lemma_first_binding(s: Seq<(nat, nat)>, atoms: Seq<Atom>, v: Seq<char>)
    ensures
        first_binding(s, atoms, v) matches Some(o) ==> s.contains(o) && variable_at(atoms, o) == v,
    decreases s.len(),
{
    if s.len() > 0 {
        lemma_first_binding(s.drop_last(), atoms, v);
        if first_binding(s.drop_last(), atoms, v) is Some {
            let o = first_binding(s.drop_last(), atoms, v)->0;
            let k = choose|k: int| 0 <= k < s.drop_last().len() && s.drop_last()[k] == o;
            assert(s[k] == o);
        } else {
            assert(s[s.len() - 1] == s.last());
        }
    }
}

/// Each result column selects, under the head variable's name, a column of a
/// body atom that holds that variable.
#[verifier::rlimit(60)]
#[verifier::spinoff_prover]
pub proof fn each_result_column_reads_its_variable(module: CqModule, p: int)
    requires
        0 <= p < module.head.vars().len(),
        head_bound(module),
    ensures
        exists|j: int, c: int|
            0 <= j < module.body@.len() && 0 <= c < module.body@[j].vars().len() && #[trigger] module.body@[j].vars()[c]
                == module.head.vars()[p] && occurs_in(
                "  "@ + #[trigger] binding_spec(j as nat, c as nat) + " AS "@ + quoted(module.head.vars()[p]),
                translation(module),
            ),
{
    let atoms = module.body@;
    let head = module.head.vars();
    let v = head[p];
    assert(first_binding(occurrences(atoms), atoms, v) is Some);
    lemma_first_binding(occurrences(atoms), atoms, v);
    lemma_occurrences_bounds(atoms);
    let o = first_binding(occurrences(atoms), atoms, v)->0;
    let i = choose|i: int| 0 <= i < occurrences(atoms).len() && occurrences(atoms)[i] == o;
    assert(occurrences(atoms)[i] == o);
    let j = o.0 as int;
    let c = o.1 as int;
    let columns = Seq::new(head.len(), |q: int| head_column(atoms, head[q]));
    let piece = "  "@ + binding_spec(j as nat, c as nat) + " AS "@ + quoted(v);
    assert(columns[p] == piece);
    let (a, b) = lemma_join_sep_has_piece(columns, ",\n"@, p);
    let (before_list, after_list) = lemma_translation_result_columns(module);
    let text = translation(module);
    let before = before_list + a;
    assert(text =~= before + piece + (b + after_list));
    assert(text.subrange(before.len() as int, (before.len() + piece.len()) as int) =~= piece);
    assert(atoms[j].vars()[c] == v);
}

/// `text` equates occurrence `later` of `s` with the earlier occurrence
/// `earlier` of the same variable.
pub open spec fn equates(text: Seq<char>, s: Seq<(nat, nat)>, atoms: Seq<Atom>, later: int, earlier: int) -> bool {
    &&& 0 <= earlier < later < s.len()
    &&& variable_at(atoms, s[later]) == variable_at(atoms, s[earlier])
    &&& text == binding_spec(s[later].0, s[later].1) + " = "@ + binding_spec(s[earlier].0, s[earlier].1)
}

/// Every equality equates a later occurrence with an earlier one of the same
/// variable; the result names the two.
proof fn lemma_equality(s: Seq<(nat, nat)>, atoms: Seq<Atom>, k: int) -> (r: (int, int))
    requires
        0 <= k < equalities(s, atoms).len(),
    ensures
        equates(equalities(s, atoms)[k], s, atoms, r.0, r.1),
    decreases s.len(),
{
    let init = s.drop_last();
    lemma_first_binding(init, atoms, variable_at(atoms, s.last()));
    if k < equalities(init, atoms).len() {
        let (later, earlier) = lemma_equality(init, atoms, k);
        assert(s[later] == init[later] && s[earlier] == init[earlier]);
        (later, earlier)
    } else {
        let o = first_binding(init, atoms, variable_at(atoms, s.last()))->0;
        let earlier = choose|i: int| 0 <= i < init.len() && init[i] == o;
        assert(s[earlier] == o);
        (s.len() - 1, earlier)
    }
}

/// Each equality of the WHERE clause equates a column of a body occurrence
/// with the column of an earlier occurrence of the same variable, in body
/// then column order.
#[verifier::rlimit(60)]
#[verifier::spinoff_prover]
pub proof fn each_equality_joins_two_occurrences_of_one_variable(module: CqModule, k: int)
    requires
        0 <= k < equalities(occurrences(module.body@), module.body@).len(),
    ensures
        exists|later: int, earlier: int|
            #[trigger] equates(
                equalities(occurrences(module.body@), module.body@)[k],
                occurrences(module.body@),
                module.body@,
                later,
                earlier,
            ),
        occurs_in(equalities(occurrences(module.body@), module.body@)[k], translation(module)),
{
    let atoms = module.body@;
    let eqs = equalities(occurrences(atoms), atoms);
    let (later, earlier) = lemma_equality(occurrences(atoms), atoms, k);
    let (a, b) = lemma_join_sep_has_piece(eqs, "\n  AND "@, k);
    let (before_where, after_where) = lemma_translation_equalities(module);
    let text = translation(module);
    let before = before_where + "\nWHERE "@ + a;
    let piece = eqs[k];
    assert(text =~= before + piece + (b + after_where));
    assert(text.subrange(before.len() as int, (before.len() + piece.len()) as int) =~= piece);
}

/// The SQL text around its equalities, when there are any.
#[verifier::rlimit(60)]
#[verifier::spinoff_prover]
proof fn lemma_translation_equalities(module: CqModule) -> (r: (Seq<char>, Seq<char>))
    requires
        equalities(occurrences(module.body@), module.body@).len() > 0,
    ensures
        translation(module) == r.0 + "\nWHERE "@ + join_sep(equalities(occurrences(module.body@), module.body@), "\n  AND "@) + r.1,
{
    let atoms = module.body@;
    let inputs = module.inputs@;
    let head = module.head.vars();
    let eqs = equalities(occurrences(atoms), atoms);
    let before = "WITH\n"@ + ctes_spec(inputs) + "\nSELECT DISTINCT\n"@
        + join_sep(Seq::new(head.len(), |p: int| head_column(atoms, head[p])), ",\n"@) + "\nFROM "@
        + join_sep(Seq::new(atoms.len(), |i: int| from_item(inputs, atoms, i)), "\nCROSS JOIN "@);
    let after = "\nORDER BY "@ + join_sep(Seq::new(head.len(), |q: int| dec_nat((q + 1) as nat)), ", "@) + ";\n"@;
    assert(translation(module) =~= before + "\nWHERE "@ + join_sep(eqs, "\n  AND "@) + after);
    (before, after)
}

/// The SQL text around its result columns.
#[verifier::rlimit(60)]
#[verifier::spinoff_prover]
proof fn lemma_translation_result_columns(module: CqModule) -> (r: (Seq<char>, Seq<char>))
    ensures
        translation(module) == r.0 + join_sep(
            Seq::new(module.head.vars().len(), |p: int| head_column(module.body@, module.head.vars()[p])),
            ",\n"@,
        ) + r.1,
{
    let atoms = module.body@;
    let inputs = module.inputs@;
    let head = module.head.vars();
    let eqs = equalities(occurrences(atoms), atoms);
    let before = "WITH\n"@ + ctes_spec(inputs) + "\nSELECT DISTINCT\n"@;
    let after = "\nFROM "@ + join_sep(Seq::new(atoms.len(), |i: int| from_item(inputs, atoms, i)), "\nCROSS JOIN "@)
        + (if eqs.len() == 0 { Seq::<char>::empty() } else { "\nWHERE "@ + join_sep(eqs, "\n  AND "@) })
        + "\nORDER BY "@ + join_sep(Seq::new(head.len(), |q: int| dec_nat((q + 1) as nat)), ", "@) + ";\n"@;
    assert(translation(module) =~= before + join_sep(
        Seq::new(head.len(), |q: int| head_column(atoms, head[q])),
        ",\n"@,
    ) + after);
    (before, after)
}

/// The SQL text around its FROM items.
#[verifier::rlimit(60)]
#[verifier::spinoff_prover]
proof fn lemma_translation_from_items(module: CqModule) -> (r: (Seq<char>, Seq<char>))
    ensures
        translation(module) == r.0 + join_sep(
            Seq::new(module.body@.len(), |i: int| from_item(module.inputs@, module.body@, i)),
            "\nCROSS JOIN "@,
        ) + r.1,
{
    let atoms = module.body@;
    let inputs = module.inputs@;
    let head = module.head.vars();
    let eqs = equalities(occurrences(atoms), atoms);
    let before = "WITH\n"@ + ctes_spec(inputs) + "\nSELECT DISTINCT\n"@
        + join_sep(Seq::new(head.len(), |p: int| head_column(atoms, head[p])), ",\n"@) + "\nFROM "@;
    let after = (if eqs.len() == 0 { Seq::<char>::empty() } else { "\nWHERE "@ + join_sep(eqs, "\n  AND "@) })
        + "\nORDER BY "@ + join_sep(Seq::new(head.len(), |p: int| dec_nat((p + 1) as nat)), ", "@) + ";\n"@;
    assert(translation(module) =~= before + join_sep(
        Seq::new(atoms.len(), |i: int| from_item(inputs, atoms, i)),
        "\nCROSS JOIN "@,
    ) + after);
    (before, after)
}

/// The SQL text opens with `WITH` and the CTEs of the declared inputs.
#[verifier::rlimit(60)]
#[verifier::spinoff_prover]
proof fn lemma_translation_opens_with_ctes(module: CqModule) -> (rest: Seq<char>)
    ensures
        translation(module) == "WITH\n"@ + ctes_spec(module.inputs@) + rest,
{
    let atoms = module.body@;
    let inputs = module.inputs@;
    let head = module.head.vars();
    let eqs = equalities(occurrences(atoms), atoms);
    let rest = "\nSELECT DISTINCT\n"@
        + join_sep(Seq::new(head.len(), |p: int| head_column(atoms, head[p])), ",\n"@) + "\nFROM "@
        + join_sep(Seq::new(atoms.len(), |i: int| from_item(inputs, atoms, i)), "\nCROSS JOIN "@)
        + (if eqs.len() == 0 { Seq::<char>::empty() } else { "\nWHERE "@ + join_sep(eqs, "\n  AND "@) })
        + "\nORDER BY "@ + join_sep(Seq::new(head.len(), |p: int| dec_nat((p + 1) as nat)), ", "@) + ";\n"@;
    assert(translation(module) =~= "WITH\n"@ + ctes_spec(inputs) + rest);
    rest
}

} // verus!
