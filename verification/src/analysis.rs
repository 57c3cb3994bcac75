//! Structural facts about a query body that the generator plans with: the
//! order in which variables are first bound, the access pattern of every
//! body occurrence, and which relations each occurrence reads.

use vstd::prelude::*;

use crate::generate::GenerateError;
use crate::model::{clone_string, find_input, input_position, names_view, Atom, RelationDecl};

verus! {

/// The variable names of every atom, in body order.
pub open spec fn flat_vars(atoms: Seq<Atom>) -> Seq<Seq<char>>
    decreases atoms.len(),
{
    if atoms.len() == 0 {
        Seq::empty()
    } else {
        flat_vars(atoms.drop_last()) + atoms.last().vars()
    }
}

/// The elements of `s` in order of first occurrence, each once.
pub open spec fn first_occurrences(s: Seq<Seq<char>>) -> Seq<Seq<char>>
    decreases s.len(),
{
    if s.len() == 0 {
        Seq::empty()
    } else {
        let init = first_occurrences(s.drop_last());
        if init.contains(s.last()) {
            init
        } else {
            init.push(s.last())
        }
    }
}

/// The first occurrences hold every name of the list once.
pub proof fn lemma_first_occurrences(s: Seq<Seq<char>>)
    ensures
        first_occurrences(s).no_duplicates(),
        forall|x: Seq<char>| first_occurrences(s).contains(x) <==> s.contains(x),
    decreases s.len(),
{
    if s.len() > 0 {
        let d = s.drop_last();
        lemma_first_occurrences(d);
        let init = first_occurrences(d);
        assert forall|x: Seq<char>| first_occurrences(s).contains(x) <==> s.contains(x) by {
            if s.contains(x) {
                let k = choose|k: int| 0 <= k < s.len() && s[k] == x;
                if k < s.len() - 1 {
                    assert(d[k] == x);
                    assert(d.contains(x));
                    assert(init.contains(x));
                    if !init.contains(s.last()) {
                        let j = choose|j: int| 0 <= j < init.len() && init[j] == x;
                        assert(init.push(s.last())[j] == x);
                    }
                } else if !init.contains(s.last()) {
                    assert(init.push(s.last())[init.len() as int] == x);
                }
            }
            if first_occurrences(s).contains(x) {
                if init.contains(x) {
                    assert(d.contains(x));
                    let j = choose|j: int| 0 <= j < d.len() && d[j] == x;
                    assert(s[j] == x);
                } else {
                    let j = choose|j: int| 0 <= j < first_occurrences(s).len() && first_occurrences(s)[j] == x;
                    if j < init.len() {
                        assert(init[j] == x);
                    }
                    assert(x == s.last());
                    assert(s[s.len() - 1] == x);
                }
            }
        }
    }
}

/// Whether a list of names holds `name`.
pub fn contains_name(names: &Vec<String>, name: &String) -> (b: bool)
    ensures
        b == names_view(names@).contains(name@),
{
    for i in 0..names.len()
        invariant
            forall|k: int| 0 <= k < i ==> names@[k]@ != name@,
    {
        if names[i] == *name {
            assert(names_view(names@)[i as int] == name@);
            return true;
        }
    }
    proof {
        assert forall|k: int| 0 <= k < names_view(names@).len() implies names_view(names@)[k] != name@ by {
            assert(names_view(names@)[k] == names@[k]@);
        }
    }
    false
}

proof fn lemma_flat_vars_push(atoms: Seq<Atom>, i: int)
    requires
        0 <= i < atoms.len(),
    ensures
        flat_vars(atoms.take(i + 1)) == flat_vars(atoms.take(i)) + atoms[i].vars(),
{
    assert(atoms.take(i + 1).drop_last() == atoms.take(i));
}

/// Adds the variables of `atom` to `order`, keeping first occurrences.
fn extend_first_occurrences(order: &mut Vec<String>, atom: &Atom)
    ensures
        names_view(final(order)@) == first_occurrences_from(names_view(old(order)@), atom.vars()),
{
    let ghost start = names_view(order@);
    for c in 0..atom.variables.len()
        invariant
            names_view(order@) == first_occurrences_from(start, atom.vars().take(c as int)),
    {
        let name = &atom.variables[c];
        let ghost before = order@;
        proof {
            assert(atom.vars()[c as int] == name@);
            assert(atom.vars().take(c + 1).drop_last() =~= atom.vars().take(c as int));
            assert(atom.vars().take(c + 1).last() == name@);
        }
        if !contains_name(order, name) {
            order.push(clone_string(name));
            assert(names_view(order@) =~= names_view(before).push(name@));
        }
    }
    assert(atom.vars().take(atom.vars().len() as int) == atom.vars());
}

/// `first_occurrences` continued from an already deduplicated prefix.
pub open spec fn first_occurrences_from(seen: Seq<Seq<char>>, s: Seq<Seq<char>>) -> Seq<Seq<char>>
    decreases s.len(),
{
    if s.len() == 0 {
        seen
    } else {
        let init = first_occurrences_from(seen, s.drop_last());
        if init.contains(s.last()) {
            init
        } else {
            init.push(s.last())
        }
    }
}

proof fn lemma_first_occurrences_from(a: Seq<Seq<char>>, b: Seq<Seq<char>>)
    ensures
        first_occurrences_from(first_occurrences(a), b) == first_occurrences(a + b),
    decreases b.len(),
{
    if b.len() == 0 {
        assert(a + b == a);
    } else {
        lemma_first_occurrences_from(a, b.drop_last());
        assert((a + b).drop_last() == a + b.drop_last());
        assert((a + b).last() == b.last());
    }
}

/// Every variable of the body, in order of first occurrence.
pub fn variable_order(atoms: &Vec<Atom>) -> (r: Vec<String>)
    ensures
        names_view(r@) == first_occurrences(flat_vars(atoms@)),
{
    let mut order: Vec<String> = Vec::new();
    assert(names_view(order@) =~= first_occurrences(flat_vars(atoms@.take(0))));
    for i in 0..atoms.len()
        invariant
            names_view(order@) == first_occurrences(flat_vars(atoms@.take(i as int))),
    {
        extend_first_occurrences(&mut order, &atoms[i]);
        proof {
            lemma_flat_vars_push(atoms@, i as int);
            lemma_first_occurrences_from(flat_vars(atoms@.take(i as int)), atoms@[i as int].vars());
        }
    }
    assert(atoms@.take(atoms@.len() as int) == atoms@);
    order
}

/// The columns of `vars`, in order, whose variable is in `bound`.
pub open spec fn bound_columns(vars: Seq<Seq<char>>, bound: Seq<Seq<char>>, upto: nat) -> Seq<usize>
    decreases upto,
{
    if upto == 0 {
        Seq::empty()
    } else {
        let init = bound_columns(vars, bound, (upto - 1) as nat);
        if bound.contains(vars[upto - 1]) {
            init.push((upto - 1) as usize)
        } else {
            init
        }
    }
}

/// How one body occurrence is reached: the columns bound by earlier atoms
/// form its lookup key.
pub struct AccessPattern {
    pub occurrence: usize,
    pub key_columns: Vec<usize>,
    /// The variables bound by earlier atoms, in order of first occurrence.
    pub bound_variables: Vec<String>,
}

impl AccessPattern {
    /// A lookup that binds some but not all columns.
    pub open spec fn partial_spec(&self, atoms: Seq<Atom>) -> bool {
        self.key_columns@.len() > 0 && self.key_columns@.len() < atoms[self.occurrence as int].variables@.len()
    }

    /// Whether the lookup binds some but not all columns.
    pub fn is_partial(&self, atoms: &Vec<Atom>) -> (b: bool)
        requires
            self.occurrence < atoms@.len(),
        ensures
            b == self.partial_spec(atoms@),
    {
        self.key_columns.len() > 0 && self.key_columns.len() < atoms[self.occurrence].variables.len()
    }
}

/// The access pattern of occurrence `k`.
pub open spec fn access_spec(atoms: Seq<Atom>, k: int, a: AccessPattern) -> bool {
    let bound = first_occurrences(flat_vars(atoms.take(k)));
    &&& a.occurrence == k
    &&& names_view(a.bound_variables@) == bound
    &&& a.key_columns@ == bound_columns(atoms[k].vars(), bound, atoms[k].vars().len())
}

/// Columns of `vars` whose variable is already in `bound`.
fn key_columns_of(atom: &Atom, bound: &Vec<String>) -> (r: Vec<usize>)
    ensures
        r@ == bound_columns(atom.vars(), names_view(bound@), atom.vars().len()),
{
    let mut keys: Vec<usize> = Vec::new();
    for c in 0..atom.variables.len()
        invariant
            keys@ == bound_columns(atom.vars(), names_view(bound@), c as nat),
            atom.vars().len() == atom.variables@.len(),
    {
        assert(atom.vars()[c as int] == atom.variables@[c as int]@);
        if contains_name(bound, &atom.variables[c]) {
            keys.push(c);
        }
    }
    keys
}

/// The access pattern of every body occurrence, in body order.
pub fn access_patterns(atoms: &Vec<Atom>) -> (r: Vec<AccessPattern>)
    ensures
        r@.len() == atoms@.len(),
        forall|k: int| 0 <= k < atoms@.len() ==> access_spec(atoms@, k, #[trigger] r@[k]),
{
    let mut bound: Vec<String> = Vec::new();
    let mut accesses: Vec<AccessPattern> = Vec::new();
    assert(names_view(bound@) =~= first_occurrences(flat_vars(atoms@.take(0))));
    for i in 0..atoms.len()
        invariant
            names_view(bound@) == first_occurrences(flat_vars(atoms@.take(i as int))),
            accesses@.len() == i,
            forall|k: int| 0 <= k < i ==> access_spec(atoms@, k, #[trigger] accesses@[k]),
    {
        let key_columns = key_columns_of(&atoms[i], &bound);
        let access = AccessPattern {
            occurrence: i,
            key_columns,
            bound_variables: crate::model::clone_names(&bound),
        };
        accesses.push(access);
        extend_first_occurrences(&mut bound, &atoms[i]);
        proof {
            lemma_flat_vars_push(atoms@, i as int);
            lemma_first_occurrences_from(flat_vars(atoms@.take(i as int)), atoms@[i as int].vars());
            assert(access_spec(atoms@, i as int, accesses@[i as int]));
        }
    }
    accesses
}

/// The body occurrences whose every column is bound by earlier atoms: full-key memberships.
pub open spec fn is_membership(atoms: Seq<Atom>, k: int) -> bool {
    let bound = first_occurrences(flat_vars(atoms.take(k)));
    forall|c: int| 0 <= c < atoms[k].vars().len() ==> bound.contains(#[trigger] atoms[k].vars()[c])
}

/// The bound columns are increasing columns whose variables are bound, and all columns exactly when every variable is.
pub proof fn lemma_bound_columns_all(vars: Seq<Seq<char>>, bound: Seq<Seq<char>>, upto: nat)
    requires
        upto <= vars.len(),
        vars.len() <= usize::MAX,
    ensures
        bound_columns(vars, bound, upto).len() <= upto,
        bound_columns(vars, bound, upto).len() == upto <==> forall|c: int| 0 <= c < upto ==> bound.contains(#[trigger] vars[c]),
        forall|j: int| 0 <= j < bound_columns(vars, bound, upto).len() ==> {
            &&& (#[trigger] bound_columns(vars, bound, upto)[j]) < upto
            &&& bound.contains(vars[bound_columns(vars, bound, upto)[j] as int])
        },
        forall|i: int, j: int| 0 <= i < j < bound_columns(vars, bound, upto).len() ==> bound_columns(vars, bound, upto)[i] < bound_columns(vars, bound, upto)[j],
    decreases upto,
{
    if upto > 0 {
        lemma_bound_columns_all(vars, bound, (upto - 1) as nat);
        let init = bound_columns(vars, bound, (upto - 1) as nat);
        let bc = bound_columns(vars, bound, upto);
        if !bound.contains(vars[upto - 1]) {
            assert(init.len() < upto);
        } else {
            assert(bc == init.push((upto - 1) as usize));
            assert forall|j: int| 0 <= j < bc.len() implies {
                &&& (#[trigger] bc[j]) < upto
                &&& bound.contains(vars[bc[j] as int])
            } by {
                if j < init.len() {
                    assert(bc[j] == init[j]);
                }
            }
            assert forall|i: int, j: int| 0 <= i < j < bc.len() implies bc[i] < bc[j] by {
                assert(bc[i] == init[i]);
                if j < init.len() {
                    assert(bc[j] == init[j]);
                }
            }
        }
    }
}

/// The memberships among the access patterns, in body order.
pub fn membership_occurrences(atoms: &Vec<Atom>, accesses: &Vec<AccessPattern>) -> (r: Vec<usize>)
    requires
        accesses@.len() == atoms@.len(),
        forall|k: int| 0 <= k < atoms@.len() ==> access_spec(atoms@, k, #[trigger] accesses@[k]),
    ensures
        forall|j: int| 0 <= j < r@.len() ==> (#[trigger] r@[j]) < atoms@.len() && is_membership(atoms@, r@[j] as int),
        forall|k: int| 0 <= k < atoms@.len() && is_membership(atoms@, k) ==> r@.contains(k as usize),
        forall|i: int, j: int| 0 <= i < j < r@.len() ==> r@[i] < r@[j],
{
    let mut out: Vec<usize> = Vec::new();
    for i in 0..accesses.len()
        invariant
            accesses@.len() == atoms@.len(),
            forall|k: int| 0 <= k < atoms@.len() ==> access_spec(atoms@, k, #[trigger] accesses@[k]),
            forall|j: int| 0 <= j < out@.len() ==> (#[trigger] out@[j]) < i && is_membership(atoms@, out@[j] as int),
            forall|k: int| 0 <= k < i && is_membership(atoms@, k) ==> out@.contains(k as usize),
            forall|a: int, b: int| 0 <= a < b < out@.len() ==> out@[a] < out@[b],
    {
        let access = &accesses[i];
        proof {
            assert(access_spec(atoms@, i as int, accesses@[i as int]));
            let bound = first_occurrences(flat_vars(atoms@.take(i as int)));
            assert(atoms@[i as int].variables@.len() == atoms@[i as int].variables.len());
            lemma_bound_columns_all(atoms@[i as int].vars(), bound, atoms@[i as int].vars().len());
        }
        if access.key_columns.len() == atoms[access.occurrence].variables.len() {
            let ghost before = out@;
            out.push(access.occurrence);
            proof {
                assert(out@[before.len() as int] == i);
                assert forall|k: int| 0 <= k < i + 1 && is_membership(atoms@, k) implies out@.contains(k as usize) by {
                    if k < i {
                        let w = choose|w: int| 0 <= w < before.len() && before[w] == k as usize;
                        assert(out@[w] == k as usize);
                    }
                }
            }
        }
    }
    out
}

/// Position of the input that an atom reads (its last declaration).
pub fn relation_position(atom: &Atom, inputs: &Vec<RelationDecl>) -> (r: Result<usize, GenerateError>)
    ensures
        match r {
            Ok(p) => input_position(inputs@, atom.rel()) == Some(p as int),
            Err(e) => input_position(inputs@, atom.rel()) is None && (e matches GenerateError::UnknownRelation(name) && name@ == atom.rel()),
        },
{
    match find_input(inputs, &atom.relation) {
        Some(p) => Ok(p),
        None => Err(GenerateError::UnknownRelation(clone_string(&atom.relation))),
    }
}

/// The names of `vars` that are not in `head`, in order.
pub open spec fn without(vars: Seq<Seq<char>>, head: Seq<Seq<char>>) -> Seq<Seq<char>>
    decreases vars.len(),
{
    if vars.len() == 0 {
        Seq::empty()
    } else {
        let init = without(vars.drop_last(), head);
        if head.contains(vars.last()) {
            init
        } else {
            init.push(vars.last())
        }
    }
}

/// The body variables that the head projects away, in variable order.
pub fn existential_variables(head: &Atom, variables: &Vec<String>) -> (r: Vec<String>)
    ensures
        names_view(r@) == without(names_view(variables@), head.vars()),
{
    let mut out: Vec<String> = Vec::new();
    for i in 0..variables.len()
        invariant
            names_view(out@) == without(names_view(variables@).take(i as int), head.vars()),
    {
        let ghost before = out@;
        proof {
            assert(names_view(variables@).take(i + 1).drop_last() =~= names_view(variables@).take(i as int));
            assert(names_view(variables@).take(i + 1).last() == variables@[i as int]@);
        }
        if !contains_name(&head.variables, &variables[i]) {
            out.push(clone_string(&variables[i]));
            assert(names_view(out@) =~= names_view(before).push(variables@[i as int]@));
        }
    }
    assert(names_view(variables@).take(variables@.len() as int) =~= names_view(variables@));
    out
}

/// Number of partial accesses among the first `upto`.
pub open spec fn partial_count(accesses: Seq<AccessPattern>, atoms: Seq<Atom>, upto: nat) -> nat
    decreases upto,
{
    if upto == 0 {
        0
    } else {
        partial_count(accesses, atoms, (upto - 1) as nat) + if accesses[upto - 1].partial_spec(atoms) {
            1nat
        } else {
            0nat
        }
    }
}

/// Total key width of the composite-key accesses among the first `upto`.
pub open spec fn composite_key_total(accesses: Seq<AccessPattern>, upto: nat) -> nat
    decreases upto,
{
    if upto == 0 {
        0
    } else {
        composite_key_total(accesses, (upto - 1) as nat) + if accesses[upto - 1].key_columns@.len() >= 2 {
            accesses[upto - 1].key_columns@.len()
        } else {
            0nat
        }
    }
}

/// The composite key total grows with the number of accesses counted.
pub proof fn lemma_composite_monotone(accesses: Seq<AccessPattern>, i: nat, n: nat)
    requires
        i <= n,
    ensures
        composite_key_total(accesses, i) <= composite_key_total(accesses, n),
    decreases n,
{
    if i < n {
        lemma_composite_monotone(accesses, i, (n - 1) as nat);
    }
}

/// The count of partial lookups grows with the number of accesses counted.
pub proof fn lemma_partial_monotone(accesses: Seq<AccessPattern>, atoms: Seq<Atom>, i: nat, n: nat)
    requires
        i <= n,
    ensures
        partial_count(accesses, atoms, i) <= partial_count(accesses, atoms, n),
    decreases n,
{
    if i < n {
        lemma_partial_monotone(accesses, atoms, i, (n - 1) as nat);
    }
}

proof fn lemma_partial_bound(accesses: Seq<AccessPattern>, atoms: Seq<Atom>, n: nat)
    ensures
        partial_count(accesses, atoms, n) <= n,
    decreases n,
{
    if n > 0 {
        lemma_partial_bound(accesses, atoms, (n - 1) as nat);
    }
}

/// How many edge-case assignments the coverage planting uses.
pub open spec fn edge_marker_total(accesses: Seq<AccessPattern>, atoms: Seq<Atom>, has_existentials: bool) -> nat {
    partial_count(accesses, atoms, accesses.len()) * 2 + composite_key_total(accesses, accesses.len())
        + if has_existentials { 1nat } else { 0nat }
}

/// Counts the edge-case assignments: two per partial access, one per key
/// column of each composite key, and one more when the head drops variables.
pub fn edge_marker_count(accesses: &Vec<AccessPattern>, atoms: &Vec<Atom>, has_existentials: bool) -> (r: Result<usize, GenerateError>)
    requires
        forall|k: int| 0 <= k < accesses@.len() ==> (#[trigger] accesses@[k]).occurrence < atoms@.len(),
    ensures
        match r {
            Ok(n) => n == edge_marker_total(accesses@, atoms@, has_existentials),
            Err(e) => edge_marker_total(accesses@, atoms@, has_existentials) > usize::MAX && e is ValueSpaceExhausted,
        },
{
    let mut partial: usize = 0;
    let mut composite: usize = 0;
    for i in 0..accesses.len()
        invariant
            forall|k: int| 0 <= k < accesses@.len() ==> (#[trigger] accesses@[k]).occurrence < atoms@.len(),
            partial == partial_count(accesses@, atoms@, i as nat),
            composite == composite_key_total(accesses@, i as nat),
            partial <= i,
    {
        if accesses[i].is_partial(atoms) {
            partial += 1;
        }
        let width = accesses[i].key_columns.len();
        if width >= 2 {
            composite = match composite.checked_add(width) {
                Some(v) => v,
                None => {
                    proof {
                        lemma_composite_monotone(accesses@, (i + 1) as nat, accesses@.len());
                    }
                    return Err(GenerateError::ValueSpaceExhausted);
                },
            };
        }
    }
    let doubled = match partial.checked_mul(2) {
        Some(v) => v,
        None => {
            return Err(GenerateError::ValueSpaceExhausted);
        },
    };
    let sum = match doubled.checked_add(composite) {
        Some(v) => v,
        None => {
            return Err(GenerateError::ValueSpaceExhausted);
        },
    };
    if has_existentials {
        match sum.checked_add(1) {
            Some(v) => Ok(v),
            None => Err(GenerateError::ValueSpaceExhausted),
        }
    } else {
        Ok(sum)
    }
}

/// Another occurrence is the same relation over the same variables.
pub open spec fn duplicated_occurrence(atoms: Seq<Atom>, k: int) -> bool {
    exists|o: int| 0 <= o < atoms.len() && o != k && (#[trigger] atoms[o]).rel() == atoms[k].rel() && atoms[o].vars() == atoms[k].vars()
}

fn same_names(a: &Vec<String>, b: &Vec<String>) -> (r: bool)
    ensures
        r == (names_view(a@) == names_view(b@)),
{
    if a.len() != b.len() {
        assert(names_view(a@).len() != names_view(b@).len());
        return false;
    }
    for i in 0..a.len()
        invariant
            a@.len() == b@.len(),
            forall|k: int| 0 <= k < i ==> a@[k]@ == b@[k]@,
    {
        if a[i] != b[i] {
            assert(names_view(a@)[i as int] != names_view(b@)[i as int]);
            return false;
        }
    }
    assert(names_view(a@) =~= names_view(b@));
    true
}

fn has_duplicate_occurrence(atoms: &Vec<Atom>, k: usize) -> (r: bool)
    requires
        k < atoms@.len(),
    ensures
        r == duplicated_occurrence(atoms@, k as int),
{
    for o in 0..atoms.len()
        invariant
            k < atoms@.len(),
            forall|j: int| 0 <= j < o && j != k ==> !((#[trigger] atoms@[j]).rel() == atoms@[k as int].rel() && atoms@[j].vars() == atoms@[k as int].vars()),
    {
        if o != k && atoms[o].relation == atoms[k].relation && same_names(&atoms[o].variables, &atoms[k].variables) {
            return true;
        }
    }
    false
}

/// Rejects a full-key membership that another occurrence repeats exactly:
/// deleting it could never change any result.
pub fn check_distinguishable_memberships(atoms: &Vec<Atom>, memberships: &Vec<usize>) -> (r: Result<(), GenerateError>)
    requires
        forall|j: int| 0 <= j < memberships@.len() ==> (#[trigger] memberships@[j]) < atoms@.len(),
    ensures
        r is Ok <==> forall|j: int| 0 <= j < memberships@.len() ==> !duplicated_occurrence(atoms@, #[trigger] memberships@[j] as int),
        r matches Err(e) ==> exists|j: int| 0 <= j < memberships@.len() && {
            &&& duplicated_occurrence(atoms@, #[trigger] memberships@[j] as int)
            &&& forall|i: int| 0 <= i < j ==> !duplicated_occurrence(atoms@, #[trigger] memberships@[i] as int)
            &&& e matches GenerateError::IndistinguishableMembership { occurrence, relation } && occurrence == memberships@[j] + 1 && relation@ == atoms@[memberships@[j] as int].rel()
        },
{
    for j in 0..memberships.len()
        invariant
            forall|i: int| 0 <= i < memberships@.len() ==> (#[trigger] memberships@[i]) < atoms@.len(),
            forall|i: int| 0 <= i < j ==> !duplicated_occurrence(atoms@, #[trigger] memberships@[i] as int),
    {
        let membership = memberships[j];
        assert(membership < atoms.len());
        if has_duplicate_occurrence(atoms, membership) {
            let e = GenerateError::IndistinguishableMembership {
                occurrence: membership + 1,
                relation: clone_string(&atoms[membership].relation),
            };
            assert(memberships@[j as int] == membership);
            return Err(e);
        }
    }
    Ok(())
}

/// The first atom whose relation is not declared, if any.
pub open spec fn first_unknown(atoms: Seq<Atom>, inputs: Seq<RelationDecl>) -> int
    decreases atoms.len(),
{
    if atoms.len() == 0 {
        0
    } else if first_unknown(atoms.drop_last(), inputs) < atoms.len() - 1 {
        first_unknown(atoms.drop_last(), inputs)
    } else if input_position(inputs, atoms.last().rel()) is None {
        atoms.len() - 1
    } else {
        atoms.len() as int
    }
}

/// Every atom before the first unknown one names a declared input, and that one does not.
pub proof fn lemma_first_unknown(atoms: Seq<Atom>, inputs: Seq<RelationDecl>)
    ensures
        0 <= first_unknown(atoms, inputs) <= atoms.len(),
        forall|k: int| 0 <= k < first_unknown(atoms, inputs) ==> input_position(inputs, (#[trigger] atoms[k]).rel()) is Some,
        first_unknown(atoms, inputs) < atoms.len() ==> input_position(inputs, atoms[first_unknown(atoms, inputs)].rel()) is None,
    decreases atoms.len(),
{
    if atoms.len() > 0 {
        lemma_first_unknown(atoms.drop_last(), inputs);
        assert forall|k: int| 0 <= k < first_unknown(atoms, inputs) implies input_position(inputs, (#[trigger] atoms[k]).rel()) is Some by {
            if k < atoms.len() - 1 {
                assert(atoms.drop_last()[k] == atoms[k]);
            }
        }
        if first_unknown(atoms.drop_last(), inputs) < atoms.len() - 1 {
            assert(atoms.drop_last()[first_unknown(atoms, inputs)] == atoms[first_unknown(atoms, inputs)]);
        }
    }
}

/// The input a declared atom reads.
pub open spec fn position_of(inputs: Seq<RelationDecl>, atom: Atom) -> int {
    input_position(inputs, atom.rel())->0
}

/// Occurrence `(j, c)` is scanned before `(k, col)`: body order, then column order.
pub open spec fn before(j: int, c: int, k: int, col: int) -> bool {
    j < k || (j == k && c < col)
}

/// Among the occurrences scanned before `(k, col)`, one variable sits in two
/// different `(input, column)` domains.
pub open spec fn conflict_before(atoms: Seq<Atom>, inputs: Seq<RelationDecl>, k: int, col: int) -> bool {
    exists|j1: int, c1: int, j2: int, c2: int|
        0 <= j1 && 0 <= j2 && before(j1, c1, k, col) && before(j2, c2, k, col) && 0 <= c1 < atoms[j1].vars().len()
            && 0 <= c2 < atoms[j2].vars().len()
            && #[trigger] atoms[j1].vars()[c1] == #[trigger] atoms[j2].vars()[c2]
            && (position_of(inputs, atoms[j1]) != position_of(inputs, atoms[j2]) || c1 != c2)
}

/// Among the first `upto` atoms, one variable sits in two different domains.
pub open spec fn domain_conflict(atoms: Seq<Atom>, inputs: Seq<RelationDecl>, upto: int) -> bool {
    conflict_before(atoms, inputs, upto, 0)
}

/// One recorded domain: a variable, its input position, and its column.
struct Domain {
    variable: String,
    relation: usize,
    column: usize,
}

/// A domain record for `v` at `(rel, col)` exists.
spec fn recorded(domains: Seq<Domain>, v: Seq<char>, rel: int, col: int) -> bool {
    exists|d: int| 0 <= d < domains.len() && (#[trigger] domains[d]).variable@ == v && domains[d].relation == rel && domains[d].column == col
}

fn find_domain(domains: &Vec<Domain>, variable: &String) -> (r: Option<usize>)
    ensures
        match r {
            Some(d) => d < domains@.len() && domains@[d as int].variable@ == variable@,
            None => forall|d: int| 0 <= d < domains@.len() ==> (#[trigger] domains@[d]).variable@ != variable@,
        },
{
    for d in 0..domains.len()
        invariant
            forall|e: int| 0 <= e < d ==> (#[trigger] domains@[e]).variable@ != variable@,
    {
        if domains[d].variable == *variable {
            return Some(d);
        }
    }
    None
}

proof fn lemma_conflict_monotone(atoms: Seq<Atom>, inputs: Seq<RelationDecl>, k: int, col: int, k2: int, col2: int)
    requires
        conflict_before(atoms, inputs, k, col),
        before(k, col, k2, col2) || (k == k2 && col == col2),
    ensures
        conflict_before(atoms, inputs, k2, col2),
{
    let (j1, c1, j2, c2) = choose|j1: int, c1: int, j2: int, c2: int|
        0 <= j1 && 0 <= j2 && before(j1, c1, k, col) && before(j2, c2, k, col) && 0 <= c1 < atoms[j1].vars().len()
            && 0 <= c2 < atoms[j2].vars().len()
            && #[trigger] atoms[j1].vars()[c1] == #[trigger] atoms[j2].vars()[c2]
            && (position_of(inputs, atoms[j1]) != position_of(inputs, atoms[j2]) || c1 != c2);
    assert(before(j1, c1, k2, col2));
    assert(before(j2, c2, k2, col2));
}

/// The end of an atom's columns is the start of the next atom.
proof fn lemma_conflict_next_atom(atoms: Seq<Atom>, inputs: Seq<RelationDecl>, k: int)
    requires
        0 <= k < atoms.len(),
    ensures
        conflict_before(atoms, inputs, k, atoms[k].vars().len() as int) == conflict_before(atoms, inputs, k + 1, 0),
{
    if conflict_before(atoms, inputs, k + 1, 0) {
        let (j1, c1, j2, c2) = choose|j1: int, c1: int, j2: int, c2: int|
            0 <= j1 && 0 <= j2 && before(j1, c1, k + 1, 0) && before(j2, c2, k + 1, 0) && 0 <= c1 < atoms[j1].vars().len()
                && 0 <= c2 < atoms[j2].vars().len()
                && #[trigger] atoms[j1].vars()[c1] == #[trigger] atoms[j2].vars()[c2]
                && (position_of(inputs, atoms[j1]) != position_of(inputs, atoms[j2]) || c1 != c2);
        assert(before(j1, c1, k, atoms[k].vars().len() as int));
        assert(before(j2, c2, k, atoms[k].vars().len() as int));
    }
    if conflict_before(atoms, inputs, k, atoms[k].vars().len() as int) {
        lemma_conflict_monotone(atoms, inputs, k, atoms[k].vars().len() as int, k + 1, 0);
    }
}

/// Disjoint `(input, column)` noise domains make the query empty when at
/// least one repeated variable crosses two distinct domains. If no variable
/// does so, one nonempty row per input already satisfies the query and a
/// nonempty no-match scenario is unavailable to this schema.
pub fn disjoint_noise_forces_no_match(atoms: &Vec<Atom>, inputs: &Vec<RelationDecl>) -> (r: Result<bool, GenerateError>)
    ensures
        ({
            let u = first_unknown(atoms@, inputs@);
            &&& domain_conflict(atoms@, inputs@, u) ==> r == Ok::<bool, GenerateError>(true)
            &&& !domain_conflict(atoms@, inputs@, u) && u == atoms@.len() ==> r == Ok::<bool, GenerateError>(false)
            &&& !domain_conflict(atoms@, inputs@, u) && u < atoms@.len() ==> (r matches Err(GenerateError::UnknownRelation(name)) && name@ == atoms@[u].rel())
        }),
{
    proof {
        lemma_first_unknown(atoms@, inputs@);
    }
    let ghost u = first_unknown(atoms@, inputs@);
    let mut domains: Vec<Domain> = Vec::new();
    let ghost mut witness: Seq<(int, int)> = Seq::empty();
    for k in 0..atoms.len()
        invariant
            u == first_unknown(atoms@, inputs@),
            0 <= u <= atoms@.len(),
            forall|j: int| 0 <= j < u ==> input_position(inputs@, (#[trigger] atoms@[j]).rel()) is Some,
            u < atoms@.len() ==> input_position(inputs@, atoms@[u].rel()) is None,
            k <= u,
            !conflict_before(atoms@, inputs@, k as int, 0),
            witness.len() == domains@.len(),
            forall|d: int| 0 <= d < domains@.len() ==> {
                let (j, c) = #[trigger] witness[d];
                &&& 0 <= j && before(j, c, k as int, 0) && 0 <= c < atoms@[j].vars().len()
                &&& atoms@[j].vars()[c] == domains@[d].variable@
                &&& position_of(inputs@, atoms@[j]) == domains@[d].relation
                &&& c == domains@[d].column
            },
            forall|j: int, c: int| 0 <= j && before(j, c, k as int, 0) && 0 <= c < atoms@[j].vars().len() ==> recorded(domains@, #[trigger] atoms@[j].vars()[c], position_of(inputs@, atoms@[j]), c),
    {
        let relation = relation_position(&atoms[k], inputs)?;
        let atom = &atoms[k];
        assert(k < u);
        for c in 0..atom.variables.len()
            invariant
                u == first_unknown(atoms@, inputs@),
                forall|j: int| 0 <= j < u ==> input_position(inputs@, (#[trigger] atoms@[j]).rel()) is Some,
                k < u <= atoms@.len(),
                atom == &atoms@[k as int],
                relation == position_of(inputs@, atoms@[k as int]),
                !conflict_before(atoms@, inputs@, k as int, c as int),
                witness.len() == domains@.len(),
                forall|d: int| 0 <= d < domains@.len() ==> {
                    let (j, cc) = #[trigger] witness[d];
                    &&& 0 <= j && before(j, cc, k as int, c as int) && 0 <= cc < atoms@[j].vars().len()
                    &&& atoms@[j].vars()[cc] == domains@[d].variable@
                    &&& position_of(inputs@, atoms@[j]) == domains@[d].relation
                    &&& cc == domains@[d].column
                },
                forall|j: int, cc: int| 0 <= j && before(j, cc, k as int, c as int) && 0 <= cc < atoms@[j].vars().len() ==> recorded(domains@, #[trigger] atoms@[j].vars()[cc], position_of(inputs@, atoms@[j]), cc),
        {
            let variable = &atom.variables[c];
            assert(atom.vars()[c as int] == variable@);
            let ghost domains_before = domains@;
            let ghost witness_before = witness;
            match find_domain(&domains, variable) {
                Some(d) => {
                    if domains[d].relation != relation || domains[d].column != c {
                        proof {
                            let (j, cc) = witness[d as int];
                            assert(atoms@[j].vars()[cc] == atoms@[k as int].vars()[c as int]);
                            assert(before(k as int, c as int, k as int, c + 1));
                            assert(conflict_before(atoms@, inputs@, k as int, c + 1));
                            lemma_conflict_monotone(atoms@, inputs@, k as int, c + 1, u, 0);
                        }
                        return Ok(true);
                    }
                    proof {
                        let (jw, cw) = witness[d as int];
                        assert(atoms@[jw].vars()[cw] == variable@);
                        if conflict_before(atoms@, inputs@, k as int, c + 1) {
                            let (j1, c1, j2, c2) = choose|j1: int, c1: int, j2: int, c2: int|
                                0 <= j1 && 0 <= j2 && before(j1, c1, k as int, c + 1) && before(j2, c2, k as int, c + 1) && 0 <= c1 < atoms@[j1].vars().len()
                                    && 0 <= c2 < atoms@[j2].vars().len()
                                    && #[trigger] atoms@[j1].vars()[c1] == #[trigger] atoms@[j2].vars()[c2]
                                    && (position_of(inputs@, atoms@[j1]) != position_of(inputs@, atoms@[j2]) || c1 != c2);
                            if !before(j1, c1, k as int, c as int) {
                                assert(j1 == k && c1 == c);
                                assert(atoms@[jw].vars()[cw] == atoms@[j2].vars()[c2]);
                                assert(conflict_before(atoms@, inputs@, k as int, c as int));
                            } else if !before(j2, c2, k as int, c as int) {
                                assert(j2 == k && c2 == c);
                                assert(atoms@[jw].vars()[cw] == atoms@[j1].vars()[c1]);
                                assert(conflict_before(atoms@, inputs@, k as int, c as int));
                            } else {
                                assert(conflict_before(atoms@, inputs@, k as int, c as int));
                            }
                        }
                        assert(domains@[d as int].variable@ == atoms@[k as int].vars()[c as int]);
                        assert forall|j: int, cc: int| 0 <= j && before(j, cc, k as int, c + 1) && 0 <= cc < atoms@[j].vars().len() implies recorded(domains@, #[trigger] atoms@[j].vars()[cc], position_of(inputs@, atoms@[j]), cc) by {
                            if j == k && cc == c {
                                assert(domains@[d as int].variable@ == atoms@[j].vars()[cc]);
                            }
                        }
                    }
                },
                None => {
                    domains.push(Domain { variable: clone_string(variable), relation, column: c });
                    proof {
                        witness = witness.push((k as int, c as int));
                        let last = domains@.len() - 1;
                        assert(domains@[last].variable@ == atoms@[k as int].vars()[c as int]);
                        if conflict_before(atoms@, inputs@, k as int, c + 1) {
                            let (j1, c1, j2, c2) = choose|j1: int, c1: int, j2: int, c2: int|
                                0 <= j1 && 0 <= j2 && before(j1, c1, k as int, c + 1) && before(j2, c2, k as int, c + 1) && 0 <= c1 < atoms@[j1].vars().len()
                                    && 0 <= c2 < atoms@[j2].vars().len()
                                    && #[trigger] atoms@[j1].vars()[c1] == #[trigger] atoms@[j2].vars()[c2]
                                    && (position_of(inputs@, atoms@[j1]) != position_of(inputs@, atoms@[j2]) || c1 != c2);
                            if !before(j1, c1, k as int, c as int) {
                                if before(j2, c2, k as int, c as int) {
                                    assert(recorded(domains_before, atoms@[j2].vars()[c2], position_of(inputs@, atoms@[j2]), c2 as int));
                                    let e = choose|e: int| 0 <= e < domains_before.len() && (#[trigger] domains_before[e]).variable@ == atoms@[j2].vars()[c2] && domains_before[e].relation == position_of(inputs@, atoms@[j2]) && domains_before[e].column == c2;
                                    assert(domains_before[e].variable@ == variable@);
                                }
                            } else if !before(j2, c2, k as int, c as int) {
                                assert(recorded(domains_before, atoms@[j1].vars()[c1], position_of(inputs@, atoms@[j1]), c1 as int));
                                    let e = choose|e: int| 0 <= e < domains_before.len() && (#[trigger] domains_before[e]).variable@ == atoms@[j1].vars()[c1] && domains_before[e].relation == position_of(inputs@, atoms@[j1]) && domains_before[e].column == c1;
                                assert(domains_before[e].variable@ == variable@);
                            } else {
                                assert(conflict_before(atoms@, inputs@, k as int, c as int));
                            }
                        }
                        assert forall|j: int, cc: int| 0 <= j && before(j, cc, k as int, c + 1) && 0 <= cc < atoms@[j].vars().len() implies recorded(domains@, #[trigger] atoms@[j].vars()[cc], position_of(inputs@, atoms@[j]), cc) by {
                            if j == k && cc == c {
                                assert(domains@[last].variable@ == atoms@[j].vars()[cc]);
                            } else {
                                assert(recorded(domains_before, atoms@[j].vars()[cc], position_of(inputs@, atoms@[j]), cc as int));
                                    let e = choose|e: int| 0 <= e < domains_before.len() && (#[trigger] domains_before[e]).variable@ == atoms@[j].vars()[cc] && domains_before[e].relation == position_of(inputs@, atoms@[j]) && domains_before[e].column == cc;
                                assert(domains@[e] == domains_before[e]);
                            }
                        }
                    }
                },
            }
            proof {
                assert forall|e: int| 0 <= e < domains@.len() implies {
                    let (j, cc) = #[trigger] witness[e];
                    &&& 0 <= j && before(j, cc, k as int, c + 1) && 0 <= cc < atoms@[j].vars().len()
                    &&& atoms@[j].vars()[cc] == domains@[e].variable@
                    &&& position_of(inputs@, atoms@[j]) == domains@[e].relation
                    &&& cc == domains@[e].column
                } by {
                    if e < domains_before.len() {
                        assert(witness[e] == witness_before[e]);
                        assert(domains@[e] == domains_before[e]);
                    }
                }
            }
        }
        proof {
            lemma_conflict_next_atom(atoms@, inputs@, k as int);
            let n = atoms@[k as int].vars().len() as int;
            assert forall|j: int, cc: int| 0 <= j && before(j, cc, k + 1, 0) && 0 <= cc < atoms@[j].vars().len() implies recorded(domains@, #[trigger] atoms@[j].vars()[cc], position_of(inputs@, atoms@[j]), cc) by {
                assert(before(j, cc, k as int, n));
            }
            assert forall|e: int| 0 <= e < domains@.len() implies {
                let (j, cc) = #[trigger] witness[e];
                &&& 0 <= j && before(j, cc, k + 1, 0) && 0 <= cc < atoms@[j].vars().len()
            } by {
                let (j, cc) = witness[e];
                assert(before(j, cc, k as int, n));
            }
        }
    }
    Ok(false)
}

/// The input read by the last body atom: emptying it leaves every earlier
/// occurrence reachable and the proof fails only at the deepest step.
pub fn deepest_first_used_input(atoms: &Vec<Atom>, inputs: &Vec<RelationDecl>) -> (r: Result<usize, GenerateError>)
    ensures
        ({
            let u = first_unknown(atoms@, inputs@);
            &&& u < atoms@.len() ==> (r matches Err(GenerateError::UnknownRelation(name)) && name@ == atoms@[u].rel())
            &&& u == atoms@.len() && atoms@.len() > 0 ==> r == Ok::<usize, GenerateError>(position_of(inputs@, atoms@.last()) as usize)
            &&& atoms@.len() == 0 ==> (r matches Err(e) && e is ValueSpaceExhausted)
        }),
{
    proof {
        lemma_first_unknown(atoms@, inputs@);
    }
    let ghost u = first_unknown(atoms@, inputs@);
    let mut deepest: Option<usize> = None;
    for k in 0..atoms.len()
        invariant
            u == first_unknown(atoms@, inputs@),
            0 <= u <= atoms@.len(),
            forall|j: int| 0 <= j < u ==> input_position(inputs@, (#[trigger] atoms@[j]).rel()) is Some,
            u < atoms@.len() ==> input_position(inputs@, atoms@[u].rel()) is None,
            k <= u,
            k == 0 <==> deepest is None,
            k > 0 ==> deepest == Some(position_of(inputs@, atoms@[k - 1]) as usize),
    {
        let relation = relation_position(&atoms[k], inputs)?;
        deepest = Some(relation);
    }
    match deepest {
        Some(relation) => Ok(relation),
        None => Err(GenerateError::ValueSpaceExhausted),
    }
}

/// Whether the query admits the scenario: coverage and empty-input data need
/// every full-key membership to be observable; no-match data needs a variable
/// that crosses two disjoint noise domains.
pub fn check_scenario_analysis(
    atoms: &Vec<Atom>,
    inputs: &Vec<RelationDecl>,
    memberships: &Vec<usize>,
    scenario: crate::Scenario,
) -> (r: Result<(), GenerateError>)
    requires
        forall|j: int| 0 <= j < memberships@.len() ==> (#[trigger] memberships@[j]) < atoms@.len(),
    ensures
        scenario != crate::Scenario::NoMatch ==> (r is Ok <==> forall|j: int| 0 <= j < memberships@.len() ==> !duplicated_occurrence(atoms@, #[trigger] memberships@[j] as int)),
        scenario != crate::Scenario::NoMatch ==> !(r matches Err(GenerateError::ScenarioNotApplicable { .. })),
        scenario != crate::Scenario::NoMatch ==> (r matches Err(e) ==> e is IndistinguishableMembership),
        scenario != crate::Scenario::NoMatch ==> (r matches Err(e) ==> exists|j: int| 0 <= j < memberships@.len() && {
            &&& duplicated_occurrence(atoms@, #[trigger] memberships@[j] as int)
            &&& forall|i: int| 0 <= i < j ==> !duplicated_occurrence(atoms@, #[trigger] memberships@[i] as int)
            &&& e matches GenerateError::IndistinguishableMembership { occurrence, relation } && occurrence == memberships@[j] + 1 && relation@ == atoms@[memberships@[j] as int].rel()
        }),
        scenario == crate::Scenario::NoMatch ==> ({
            let u = first_unknown(atoms@, inputs@);
            &&& domain_conflict(atoms@, inputs@, u) ==> r is Ok
            &&& !domain_conflict(atoms@, inputs@, u) && u == atoms@.len() ==> (r matches Err(GenerateError::ScenarioNotApplicable { scenario: s, reason }) && s == scenario && reason == crate::generate::NO_MATCH_UNAVAILABLE)
            &&& !domain_conflict(atoms@, inputs@, u) && u < atoms@.len() ==> (r matches Err(GenerateError::UnknownRelation(name)) && name@ == atoms@[u].rel())
        }),
{
    match scenario {
        crate::Scenario::Coverage | crate::Scenario::EmptyInput => check_distinguishable_memberships(atoms, memberships),
        crate::Scenario::NoMatch => {
            if disjoint_noise_forces_no_match(atoms, inputs)? {
                Ok(())
            } else {
                Err(GenerateError::ScenarioNotApplicable { scenario, reason: crate::generate::NO_MATCH_UNAVAILABLE })
            }
        },
    }
}

/// Atoms `i` and `j` share a variable.
pub open spec fn shares_variable(atoms: Seq<Atom>, i: int, j: int) -> bool {
    exists|a: int, b: int| 0 <= a < atoms[i].vars().len() && 0 <= b < atoms[j].vars().len() && #[trigger] atoms[i].vars()[a] == #[trigger] atoms[j].vars()[b]
}

/// `p` walks from `i` to `j` through atoms that pairwise share a variable.
pub open spec fn is_path(atoms: Seq<Atom>, p: Seq<int>, i: int, j: int) -> bool {
    &&& p.len() >= 1
    &&& p[0] == i
    &&& p.last() == j
    &&& forall|k: int| 0 <= k < p.len() ==> 0 <= #[trigger] p[k] < atoms.len()
    &&& forall|k: int| 0 <= k < p.len() - 1 ==> shares_variable(atoms, #[trigger] p[k], p[k + 1])
}

/// Atoms `i` and `j` are joined by a path of atoms that share variables.
pub open spec fn connected(atoms: Seq<Atom>, i: int, j: int) -> bool {
    exists|p: Seq<int>| #[trigger] is_path(atoms, p, i, j)
}

/// No earlier atom is connected to atom `i`: it is the first of its component.
pub open spec fn leads_component(atoms: Seq<Atom>, i: int) -> bool {
    forall|j: int| 0 <= j < i ==> !connected(atoms, j, i)
}

/// Number of components among all atoms: how many atoms lead their component.
pub open spec fn component_count(atoms: Seq<Atom>, upto: nat) -> nat
    decreases upto,
{
    if upto == 0 {
        0
    } else {
        component_count(atoms, (upto - 1) as nat) + if leads_component(atoms, upto - 1) {
            1nat
        } else {
            0nat
        }
    }
}

proof fn lemma_path_refl(atoms: Seq<Atom>, i: int)
    requires
        0 <= i < atoms.len(),
    ensures
        connected(atoms, i, i),
{
    assert(is_path(atoms, seq![i], i, i));
}

proof fn lemma_path_edge(atoms: Seq<Atom>, i: int, j: int)
    requires
        0 <= i < atoms.len(),
        0 <= j < atoms.len(),
        shares_variable(atoms, i, j),
    ensures
        connected(atoms, i, j),
{
    let p = seq![i, j];
    assert(is_path(atoms, p, i, j));
}

proof fn lemma_shares_symmetric(atoms: Seq<Atom>, i: int, j: int)
    requires
        shares_variable(atoms, i, j),
    ensures
        shares_variable(atoms, j, i),
{
    let (a, b) = choose|a: int, b: int| 0 <= a < atoms[i].vars().len() && 0 <= b < atoms[j].vars().len() && #[trigger] atoms[i].vars()[a] == #[trigger] atoms[j].vars()[b];
    assert(atoms[j].vars()[b] == atoms[i].vars()[a]);
}

proof fn lemma_connected_symmetric(atoms: Seq<Atom>, i: int, j: int)
    requires
        connected(atoms, i, j),
    ensures
        connected(atoms, j, i),
{
    let p = choose|p: Seq<int>| #[trigger] is_path(atoms, p, i, j);
    let q = p.reverse();
    assert forall|k: int| 0 <= k < q.len() - 1 implies shares_variable(atoms, #[trigger] q[k], q[k + 1]) by {
        let m = p.len() - 2 - k;
        assert(q[k] == p[m + 1]);
        assert(q[k + 1] == p[m]);
        assert(shares_variable(atoms, p[m], p[m + 1]));
        lemma_shares_symmetric(atoms, p[m], p[m + 1]);
    }
    assert(q[0] == p.last());
    assert(q.last() == p[0]);
    assert forall|k: int| 0 <= k < q.len() implies 0 <= #[trigger] q[k] < atoms.len() by {
        assert(q[k] == p[p.len() - 1 - k]);
    }
    assert(is_path(atoms, q, j, i));
}

proof fn lemma_connected_transitive(atoms: Seq<Atom>, i: int, j: int, k: int)
    requires
        connected(atoms, i, j),
        connected(atoms, j, k),
    ensures
        connected(atoms, i, k),
{
    let p = choose|p: Seq<int>| #[trigger] is_path(atoms, p, i, j);
    let q = choose|q: Seq<int>| #[trigger] is_path(atoms, q, j, k);
    let r = p + q.drop_first();
    assert forall|m: int| 0 <= m < r.len() implies 0 <= #[trigger] r[m] < atoms.len() by {
        if m >= p.len() {
            assert(r[m] == q[m - p.len() + 1]);
        }
    }
    assert forall|m: int| 0 <= m < r.len() - 1 implies shares_variable(atoms, #[trigger] r[m], r[m + 1]) by {
        if m < p.len() - 1 {
            assert(r[m] == p[m] && r[m + 1] == p[m + 1]);
        } else if m == p.len() - 1 {
            assert(r[m] == p.last());
            assert(p.last() == q[0]);
            assert(r[m + 1] == q[1]);
            assert(shares_variable(atoms, q[0], q[1]));
        } else {
            assert(r[m] == q[m - p.len() + 1]);
            assert(r[m + 1] == q[m - p.len() + 2]);
            assert(shares_variable(atoms, q[m - p.len() + 1], q[m - p.len() + 2]));
        }
    }
    if q.len() == 1 {
        assert(r.last() == p.last());
    } else {
        assert(r.last() == q.last());
    }
    assert(is_path(atoms, r, i, k));
}

/// The root reached by following parent links; every link points no higher.
pub open spec fn root_of(parents: Seq<usize>, i: int) -> int
    decreases i,
{
    if i < 0 || i >= parents.len() || parents[i] >= i {
        i
    } else {
        root_of(parents, parents[i] as int)
    }
}

/// Parent links point to an index no greater than their own.
pub open spec fn links_down(parents: Seq<usize>) -> bool {
    forall|i: int| 0 <= i < parents.len() ==> #[trigger] parents[i] <= i
}

proof fn lemma_root_bounds(parents: Seq<usize>, i: int)
    requires
        links_down(parents),
        0 <= i < parents.len(),
    ensures
        0 <= root_of(parents, i) <= i,
        parents[root_of(parents, i)] == root_of(parents, i),
    decreases i,
{
    if parents[i] < i {
        lemma_root_bounds(parents, parents[i] as int);
    }
}

/// Follows parent links to the root.
fn find(parents: &Vec<usize>, item: usize) -> (r: usize)
    requires
        links_down(parents@),
        item < parents@.len(),
    ensures
        r == root_of(parents@, item as int),
{
    let mut x = item;
    while parents[x] != x
        invariant
            links_down(parents@),
            x < parents@.len(),
            root_of(parents@, x as int) == root_of(parents@, item as int),
        decreases x,
    {
        x = parents[x];
    }
    x
}

proof fn lemma_root_after_link(parents: Seq<usize>, small: int, big: int, i: int)
    requires
        links_down(parents),
        0 <= small < big < parents.len(),
        parents[small] == small,
        parents[big] == big,
        0 <= i < parents.len(),
    ensures
        root_of(parents.update(big, small as usize), i) == if root_of(parents, i) == big { small } else { root_of(parents, i) },
    decreases i,
{
    let updated = parents.update(big, small as usize);
    if i == big {
        assert(updated[big] == small);
        assert(updated[small] == small);
        assert(root_of(updated, small) == small);
        assert(root_of(updated, big) == root_of(updated, small));
        assert(root_of(parents, big) == big);
    } else if parents[i] < i {
        lemma_root_after_link(parents, small, big, parents[i] as int);
        assert(updated[i] == parents[i]);
    } else {
        assert(updated[i] == parents[i]);
    }
}

/// Links the components of `left` and `right`, the larger root under the smaller.
fn union(parents: &mut Vec<usize>, left: usize, right: usize)
    requires
        links_down(old(parents)@),
        left < old(parents)@.len(),
        right < old(parents)@.len(),
    ensures
        links_down(final(parents)@),
        final(parents)@.len() == old(parents)@.len(),
        ({
            let lr = root_of(old(parents)@, left as int);
            let rr = root_of(old(parents)@, right as int);
            let small = if lr < rr { lr } else { rr };
            let big = if lr < rr { rr } else { lr };
            forall|i: int| 0 <= i < old(parents)@.len() ==> #[trigger] root_of(final(parents)@, i) == if root_of(old(parents)@, i) == big { small } else { root_of(old(parents)@, i) }
        }),
{
    let left_root = find(parents, left);
    let right_root = find(parents, right);
    proof {
        lemma_root_bounds(parents@, left as int);
        lemma_root_bounds(parents@, right as int);
    }
    if left_root != right_root {
        let (small, big) = if left_root < right_root { (left_root, right_root) } else { (right_root, left_root) };
        let ghost before = parents@;
        parents.set(big, small);
        proof {
            assert(parents@ == before.update(big as int, small));
            assert forall|i: int| 0 <= i < before.len() implies #[trigger] root_of(parents@, i) == if root_of(before, i) == big { small as int } else { root_of(before, i) } by {
                lemma_root_after_link(before, small as int, big as int, i);
            }
        }
    }
}

/// Whether two atoms share a variable.
fn atoms_share_variable(atoms: &Vec<Atom>, i: usize, j: usize) -> (b: bool)
    requires
        i < atoms@.len(),
        j < atoms@.len(),
    ensures
        b == shares_variable(atoms@, i as int, j as int),
{
    let left = &atoms[i];
    for a in 0..left.variables.len()
        invariant
            left == &atoms@[i as int],
            i < atoms@.len(),
            j < atoms@.len(),
            forall|x: int, y: int| 0 <= x < a && 0 <= y < atoms@[j as int].vars().len() ==> #[trigger] atoms@[i as int].vars()[x] != #[trigger] atoms@[j as int].vars()[y],
    {
        assert(left.vars()[a as int] == left.variables@[a as int]@);
        if contains_name(&atoms[j].variables, &left.variables[a]) {
            proof {
                let y = choose|y: int| 0 <= y < names_view(atoms@[j as int].variables@).len() && names_view(atoms@[j as int].variables@)[y] == left.variables@[a as int]@;
                assert(atoms@[i as int].vars()[a as int] == atoms@[j as int].vars()[y]);
            }
            return true;
        }
        proof {
            assert forall|y: int| 0 <= y < atoms@[j as int].vars().len() implies atoms@[i as int].vars()[a as int] != #[trigger] atoms@[j as int].vars()[y] by {
                assert(names_view(atoms@[j as int].variables@)[y] == atoms@[j as int].vars()[y]);
            }
        }
    }
    false
}

/// A path between two atoms keeps one root when every sharing pair has one root.
proof fn lemma_path_same_root(atoms: Seq<Atom>, parents: Seq<usize>, p: Seq<int>, i: int, j: int)
    requires
        is_path(atoms, p, i, j),
        forall|a: int, b: int| 0 <= a < atoms.len() && 0 <= b < atoms.len() && shares_variable(atoms, a, b) ==> root_of(parents, a) == root_of(parents, b),
    ensures
        root_of(parents, i) == root_of(parents, j),
    decreases p.len(),
{
    if p.len() > 1 {
        let q = p.drop_last();
        assert forall|k: int| 0 <= k < q.len() - 1 implies shares_variable(atoms, #[trigger] q[k], q[k + 1]) by {
            assert(q[k] == p[k] && q[k + 1] == p[k + 1]);
        }
        assert forall|k: int| 0 <= k < q.len() implies 0 <= #[trigger] q[k] < atoms.len() by {
            assert(q[k] == p[k]);
        }
        let m = q.last();
        assert(m == p[p.len() - 2]);
        assert(is_path(atoms, q, i, m));
        lemma_path_same_root(atoms, parents, q, i, m);
        assert(shares_variable(atoms, p[p.len() - 2], p[p.len() - 1]));
    }
}

/// Number of connected components of the body, where two atoms are
/// adjacent when they share a variable.
pub fn connected_components(atoms: &Vec<Atom>) -> (r: usize)
    ensures
        r == component_count(atoms@, atoms@.len()),
{
    let n = atoms.len();
    let mut parents: Vec<usize> = Vec::new();
    for i in 0..n
        invariant
            parents@.len() == i,
            forall|k: int| 0 <= k < i ==> parents@[k] == k,
    {
        parents.push(i);
    }
    proof {
        assert forall|i: int| 0 <= i < n implies connected(atoms@, root_of(parents@, i), i) by {
            lemma_path_refl(atoms@, i);
        }
    }
    for left in 0..n
        invariant
            n == atoms@.len(),
            parents@.len() == n,
            links_down(parents@),
            forall|i: int| 0 <= i < n ==> connected(atoms@, #[trigger] root_of(parents@, i), i),
            forall|a: int, b: int| 0 <= a < left && a < b < n && shares_variable(atoms@, a, b) ==> root_of(parents@, a) == root_of(parents@, b),
    {
        for right in left + 1..n
            invariant
                n == atoms@.len(),
                left < n,
                parents@.len() == n,
                links_down(parents@),
                forall|i: int| 0 <= i < n ==> connected(atoms@, #[trigger] root_of(parents@, i), i),
                forall|a: int, b: int| 0 <= a < left && a < b < n && shares_variable(atoms@, a, b) ==> root_of(parents@, a) == root_of(parents@, b),
                forall|b: int| left < b < right && shares_variable(atoms@, left as int, b) ==> root_of(parents@, left as int) == root_of(parents@, b),
        {
            if atoms_share_variable(atoms, left, right) {
                let ghost before = parents@;
                union(&mut parents, left, right);
                proof {
                    let lr = root_of(before, left as int);
                    let rr = root_of(before, right as int);
                    lemma_path_edge(atoms@, left as int, right as int);
                    assert forall|i: int| 0 <= i < n implies connected(atoms@, #[trigger] root_of(parents@, i), i) by {
                        assert(connected(atoms@, root_of(before, i), i));
                        if root_of(before, i) == rr && lr < rr {
                            // lr ~ left ~ right ~ rr ~ i
                            assert(connected(atoms@, lr, left as int));
                            assert(connected(atoms@, rr, right as int));
                            lemma_connected_symmetric(atoms@, rr, right as int);
                            lemma_connected_transitive(atoms@, lr, left as int, right as int);
                            lemma_connected_transitive(atoms@, lr, right as int, rr);
                            lemma_connected_transitive(atoms@, lr, rr, i);
                        } else if root_of(before, i) == lr && rr < lr {
                            assert(connected(atoms@, lr, left as int));
                            assert(connected(atoms@, rr, right as int));
                            lemma_connected_symmetric(atoms@, lr, left as int);
                            lemma_connected_symmetric(atoms@, left as int, right as int);
                            lemma_connected_transitive(atoms@, rr, right as int, left as int);
                            lemma_connected_transitive(atoms@, rr, left as int, lr);
                            lemma_connected_transitive(atoms@, rr, lr, i);
                        }
                    }
                }
            }
        }
    }
    proof {
        assert forall|a: int, b: int| 0 <= a < n && 0 <= b < n && shares_variable(atoms@, a, b) implies root_of(parents@, a) == root_of(parents@, b) by {
            if b < a {
                lemma_shares_symmetric(atoms@, a, b);
            } else if a == b {
            }
        }
    }
    let mut count: usize = 0;
    for i in 0..n
        invariant
            n == atoms@.len(),
            parents@.len() == n,
            links_down(parents@),
            forall|k: int| 0 <= k < n ==> connected(atoms@, #[trigger] root_of(parents@, k), k),
            forall|a: int, b: int| 0 <= a < n && 0 <= b < n && shares_variable(atoms@, a, b) ==> root_of(parents@, a) == root_of(parents@, b),
            count == component_count(atoms@, i as nat),
            count <= i,
    {
        let root = find(&parents, i);
        proof {
            lemma_root_bounds(parents@, i as int);
            if root == i {
                assert forall|j: int| 0 <= j < i implies !connected(atoms@, j, i as int) by {
                    if connected(atoms@, j, i as int) {
                        let p = choose|p: Seq<int>| #[trigger] is_path(atoms@, p, j, i as int);
                        lemma_path_same_root(atoms@, parents@, p, j, i as int);
                        lemma_root_bounds(parents@, j);
                    }
                }
            } else {
                assert(connected(atoms@, root as int, i as int));
            }
        }
        if root == i {
            count += 1;
        }
    }
    count
}

pub proof fn lemma_flat_vars_contains(atoms: Seq<Atom>, k: int, c: int)
    requires
        0 <= k < atoms.len(),
        0 <= c < atoms[k].vars().len(),
    ensures
        flat_vars(atoms).contains(atoms[k].vars()[c]),
    decreases atoms.len(),
{
    let init = atoms.drop_last();
    if k == atoms.len() - 1 {
        let f = flat_vars(atoms);
        assert(f == flat_vars(init) + atoms.last().vars());
        assert(f[flat_vars(init).len() + c] == atoms[k].vars()[c]);
    } else {
        assert(init[k] == atoms[k]);
        lemma_flat_vars_contains(init, k, c);
        let f = flat_vars(init);
        let i = choose|i: int| 0 <= i < f.len() && f[i] == atoms[k].vars()[c];
        assert((f + atoms.last().vars())[i] == atoms[k].vars()[c]);
    }
}

/// Position of `v` among `names`.
pub fn name_slot(names: &Vec<String>, v: &String) -> (r: Option<usize>)
    ensures
        match r {
            Some(i) => i < names@.len() && names@[i as int]@ == v@ && forall|k: int| 0 <= k < i ==> names@[k]@ != v@,
            None => !names_view(names@).contains(v@),
        },
{
    for i in 0..names.len()
        invariant
            forall|k: int| 0 <= k < i ==> names@[k]@ != v@,
    {
        if names[i] == *v {
            return Some(i);
        }
    }
    proof {
        if names_view(names@).contains(v@) {
            let k = choose|k: int| 0 <= k < names_view(names@).len() && names_view(names@)[k] == v@;
            assert(names@[k]@ == v@);
        }
    }
    None
}

/// For every atom, the position in `variables` of each of its variables.
pub open spec fn slots_spec(atoms: Seq<Atom>, names: Seq<Seq<char>>, slots: Seq<Vec<usize>>) -> bool {
    &&& slots.len() == atoms.len()
    &&& forall|k: int| 0 <= k < atoms.len() ==> (#[trigger] slots[k])@.len() == atoms[k].vars().len()
    &&& forall|k: int, c: int| 0 <= k < atoms.len() && 0 <= c < atoms[k].vars().len() ==> {
        &&& (#[trigger] slots[k]@[c]) < names.len()
        &&& names[slots[k]@[c] as int] == atoms[k].vars()[c]
    }
}

/// The variable slots of every atom within the variable order.
pub fn atom_slots(atoms: &Vec<Atom>, variables: &Vec<String>) -> (r: Vec<Vec<usize>>)
    requires
        names_view(variables@) == first_occurrences(flat_vars(atoms@)),
    ensures
        slots_spec(atoms@, names_view(variables@), r@),
{
    proof {
        lemma_first_occurrences(flat_vars(atoms@));
    }
    let mut out: Vec<Vec<usize>> = Vec::new();
    for k in 0..atoms.len()
        invariant
            names_view(variables@) == first_occurrences(flat_vars(atoms@)),
            forall|x: Seq<char>| first_occurrences(flat_vars(atoms@)).contains(x) <==> flat_vars(atoms@).contains(x),
            out@.len() == k,
            forall|j: int| 0 <= j < k ==> (#[trigger] out@[j])@.len() == atoms@[j].vars().len(),
            forall|j: int, c: int| 0 <= j < k && 0 <= c < atoms@[j].vars().len() ==> {
                &&& (#[trigger] out@[j]@[c]) < variables@.len()
                &&& names_view(variables@)[out@[j]@[c] as int] == atoms@[j].vars()[c]
            },
    {
        let atom = &atoms[k];
        let mut row: Vec<usize> = Vec::new();
        for c in 0..atom.variables.len()
            invariant
                atom == &atoms@[k as int],
                k < atoms@.len(),
                names_view(variables@) == first_occurrences(flat_vars(atoms@)),
                forall|x: Seq<char>| first_occurrences(flat_vars(atoms@)).contains(x) <==> flat_vars(atoms@).contains(x),
                row@.len() == c,
                forall|d: int| 0 <= d < c ==> (#[trigger] row@[d]) < variables@.len() && names_view(variables@)[row@[d] as int] == atoms@[k as int].vars()[d],
        {
            proof {
                assert(atom.vars()[c as int] == atom.variables@[c as int]@);
                lemma_flat_vars_contains(atoms@, k as int, c as int);
            }
            match name_slot(variables, &atom.variables[c]) {
                Some(slot) => {
                    row.push(slot);
                },
                None => {
                    proof {
                        assert(false);
                    }
                    row.push(0);
                },
            }
        }
        out.push(row);
        proof {
            assert forall|j: int, c: int| 0 <= j < k + 1 && 0 <= c < atoms@[j].vars().len() implies {
                &&& (#[trigger] out@[j]@[c]) < variables@.len()
                &&& names_view(variables@)[out@[j]@[c] as int] == atoms@[j].vars()[c]
            } by {
                if j == k {
                    assert(out@[j] == row);
                }
            }
        }
    }
    out
}

/// The input position of every atom.
pub fn atom_positions(atoms: &Vec<Atom>, inputs: &Vec<RelationDecl>) -> (r: Result<Vec<usize>, GenerateError>)
    ensures
        ({
            let u = first_unknown(atoms@, inputs@);
            &&& r is Ok <==> u == atoms@.len()
            &&& r matches Ok(p) ==> p@.len() == atoms@.len() && forall|k: int| 0 <= k < atoms@.len() ==> #[trigger] p@[k] == position_of(inputs@, atoms@[k]) && p@[k] < inputs@.len()
            &&& u < atoms@.len() ==> (r matches Err(GenerateError::UnknownRelation(name)) && name@ == atoms@[u].rel())
        }),
{
    proof {
        lemma_first_unknown(atoms@, inputs@);
    }
    let ghost u = first_unknown(atoms@, inputs@);
    let mut out: Vec<usize> = Vec::new();
    for k in 0..atoms.len()
        invariant
            u == first_unknown(atoms@, inputs@),
            0 <= u <= atoms@.len(),
            forall|j: int| 0 <= j < u ==> input_position(inputs@, (#[trigger] atoms@[j]).rel()) is Some,
            u < atoms@.len() ==> input_position(inputs@, atoms@[u].rel()) is None,
            k <= u,
            out@.len() == k,
            forall|j: int| 0 <= j < k ==> #[trigger] out@[j] == position_of(inputs@, atoms@[j]) && out@[j] < inputs@.len(),
    {
        let p = relation_position(&atoms[k], inputs)?;
        proof {
            crate::model::lemma_input_position(inputs@, atoms@[k as int].rel());
        }
        out.push(p);
    }
    Ok(out)
}

} // verus!
