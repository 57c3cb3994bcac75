//! Plain-value model of a positive conjunctive-query module: its declared
//! inputs, in declaration order, and one rule `head :- atom, ..., atom.`
//!
//! Names are held as symbol names: a raw identifier `r#type` is held as
//! `type`.

use vstd::prelude::*;

verus! {

/// One declared input relation.
pub struct RelationDecl {
    pub name: String,
    /// Number of declared columns.
    pub arity: usize,
}

/// A relation applied to variables, in column order.
pub struct Atom {
    pub relation: String,
    pub variables: Vec<String>,
}

/// A positive conjunctive query: `head :- body[0], ..., body[n-1].`
pub struct CqModule {
    pub inputs: Vec<RelationDecl>,
    pub head: Atom,
    pub body: Vec<Atom>,
}

/// The characters of each name.
pub open spec fn names_view(v: Seq<String>) -> Seq<Seq<char>> {
    v.map_values(|s: String| s@)
}

impl Atom {
    /// The atom's variable names.
    pub open spec fn vars(&self) -> Seq<Seq<char>> {
        names_view(self.variables@)
    }

    /// The name of the relation the atom reads.
    pub open spec fn rel(&self) -> Seq<char> {
        self.relation@
    }
}

/// Position of the last declared input named `name`; a name declared twice
/// resolves to its later declaration.
pub open spec fn input_position(inputs: Seq<RelationDecl>, name: Seq<char>) -> Option<int>
    decreases inputs.len(),
{
    if inputs.len() == 0 {
        None
    } else if inputs.last().name@ == name {
        Some(inputs.len() - 1)
    } else {
        input_position(inputs.drop_last(), name)
    }
}

/// The position of a name is the last input declared with it; an undeclared name has none.
pub proof fn lemma_input_position(inputs: Seq<RelationDecl>, name: Seq<char>)
    ensures
        match input_position(inputs, name) {
            Some(p) => 0 <= p < inputs.len() && inputs[p].name@ == name && forall|j: int|
                p < j < inputs.len() ==> inputs[j].name@ != name,
            None => forall|j: int| 0 <= j < inputs.len() ==> inputs[j].name@ != name,
        },
    decreases inputs.len(),
{
    if inputs.len() > 0 && inputs.last().name@ != name {
        lemma_input_position(inputs.drop_last(), name);
        assert forall|j: int| 0 <= j < inputs.len() - 1 implies inputs[j] == inputs.drop_last()[j] by {}
    }
}

/// Finds the position of the input that an atom names.
pub fn find_input(inputs: &Vec<RelationDecl>, name: &String) -> (r: Option<usize>)
    ensures
        match r {
            Some(p) => input_position(inputs@, name@) == Some(p as int),
            None => input_position(inputs@, name@) is None,
        },
{
    let mut i = inputs.len();
    assert(inputs@.take(i as int) == inputs@);
    while i > 0
        invariant
            i <= inputs@.len(),
            input_position(inputs@, name@) == input_position(inputs@.take(i as int), name@),
        decreases i,
    {
        assert(inputs@.take(i as int).drop_last() == inputs@.take(i - 1));
        assert(inputs@.take(i as int).last() == inputs@[i - 1]);
        if inputs[i - 1].name == *name {
            return Some(i - 1);
        }
        i -= 1;
    }
    None
}

/// Clones a string, keeping its characters.
pub fn clone_string(s: &String) -> (r: String)
    ensures
        r@ == s@,
{
    s.clone()
}

/// Clones a list of names.
pub fn clone_names(v: &Vec<String>) -> (r: Vec<String>)
    ensures
        names_view(r@) == names_view(v@),
{
    let mut out: Vec<String> = Vec::new();
    for i in 0..v.len()
        invariant
            out@.len() == i,
            forall|k: int| 0 <= k < i ==> (#[trigger] out@[k])@ == v@[k]@,
    {
        out.push(clone_string(&v[i]));
    }
    assert(names_view(out@) =~= names_view(v@));
    out
}

} // verus!
