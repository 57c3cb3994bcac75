//! Deterministic, shape-aware workload generation.
//!
//! `Scenario::Coverage` plants complete proofs and access-specific edge cases:
//! active raw duplicates, two proofs with one projected head, reachable missing
//! partial keys, multi-candidate buckets, full-membership omissions, and one
//! near miss per composite-key component. `EmptyInput` and `NoMatch` are
//! separate semantic distributions rather than misleading special rows hidden
//! in that positive dataset. `Scale` controls only volume.

use vstd::prelude::*;
use vstd::arithmetic::power::pow;

use crate::dataset::DatasetError;
use crate::analysis::{
    access_spec, composite_key_total, partial_count, slots_spec, AccessPattern,
};
use crate::model::{names_view, Atom};
use crate::rows::RowSet;
use crate::text::{dec_nat, push_str, push_u64};
use crate::{Scale, Scenario};

verus! {

/// Why a dataset could not be generated.
#[derive(Debug)]
pub enum GenerateError {
    UnknownRelation(String),
    /// `occurrence` counts body atoms from 1.
    IndistinguishableMembership { occurrence: usize, relation: String },
    /// `occurrence` counts body atoms from 1.
    IndistinguishableAccess { occurrence: usize, relation: String },
    ScenarioNotApplicable { scenario: Scenario, reason: &'static str },
    NearMissesExceedScale { distinct_rows: usize },
    TooManyColumns(usize),
    ValueSpaceExhausted,
    Dataset(DatasetError),
}

impl GenerateError {
    /// The sentence that reports the error.
    pub open spec fn message_text(&self) -> Seq<char> {
        match self {
            GenerateError::UnknownRelation(relation) => "body uses undeclared relation `"@ + relation@ + "`"@,
            GenerateError::IndistinguishableMembership { occurrence, relation } => "body occurrence "@ + dec_nat(*occurrence as nat)
                + " of `"@ + relation@ + "` is an exact duplicate, so no dataset can make deleting that membership observable"@,
            GenerateError::IndistinguishableAccess { occurrence, relation } => "body occurrence "@ + dec_nat(*occurrence as nat)
                + " of `"@ + relation@ + "` is duplicated by another occurrence, so an isolated access decoy cannot be planted"@,
            GenerateError::ScenarioNotApplicable { scenario, reason } => "scenario `"@ + scenario.name_spec() + "` is not applicable: "@
                + reason@,
            GenerateError::NearMissesExceedScale { distinct_rows } => "the required access-coverage rows exceed the scale target of "@
                + dec_nat(*distinct_rows as nat) + " distinct rows per relation"@,
            GenerateError::TooManyColumns(columns) => dec_nat(*columns as nat)
                + " declared columns exceed the generator's disjoint i32 noise domains"@,
            GenerateError::ValueSpaceExhausted => "generated planted values exceed the i32 row ABI"@,
            GenerateError::Dataset(error) => error.message_text(),
        }
    }

    /// The sentence that reports the error.
    pub fn message(&self) -> (r: String)
        ensures
            r@ == self.message_text(),
    {
        let mut out = String::new();
        match self {
            GenerateError::UnknownRelation(relation) => {
                push_str(&mut out, "body uses undeclared relation `");
                push_str(&mut out, relation.as_str());
                push_str(&mut out, "`");
            },
            GenerateError::IndistinguishableMembership { occurrence, relation } => {
                push_str(&mut out, "body occurrence ");
                push_u64(&mut out, *occurrence as u64);
                push_str(&mut out, " of `");
                push_str(&mut out, relation.as_str());
                push_str(&mut out, "` is an exact duplicate, so no dataset can make deleting that membership observable");
            },
            GenerateError::IndistinguishableAccess { occurrence, relation } => {
                push_str(&mut out, "body occurrence ");
                push_u64(&mut out, *occurrence as u64);
                push_str(&mut out, " of `");
                push_str(&mut out, relation.as_str());
                push_str(&mut out, "` is duplicated by another occurrence, so an isolated access decoy cannot be planted");
            },
            GenerateError::ScenarioNotApplicable { scenario, reason } => {
                push_str(&mut out, "scenario `");
                push_str(&mut out, scenario.as_str());
                push_str(&mut out, "` is not applicable: ");
                push_str(&mut out, reason);
            },
            GenerateError::NearMissesExceedScale { distinct_rows } => {
                push_str(&mut out, "the required access-coverage rows exceed the scale target of ");
                push_u64(&mut out, *distinct_rows as u64);
                push_str(&mut out, " distinct rows per relation");
            },
            GenerateError::TooManyColumns(columns) => {
                push_u64(&mut out, *columns as u64);
                push_str(&mut out, " declared columns exceed the generator's disjoint i32 noise domains");
            },
            GenerateError::ValueSpaceExhausted => push_str(&mut out, "generated planted values exceed the i32 row ABI"),
            GenerateError::Dataset(error) => {
                let text = error.message();
                push_str(&mut out, text.as_str());
            },
        }
        assert(out@ =~= self.message_text());
        out
    }
}

/// Why the no-match scenario is unavailable for a query.
pub const NO_MATCH_UNAVAILABLE: &'static str = "nonempty disjoint-column inputs cannot make this query empty";

/// The errors that planting rows can end in.
pub open spec fn planting_error(e: GenerateError) -> bool {
    ||| e is IndistinguishableMembership
    ||| e is IndistinguishableAccess
    ||| e is NearMissesExceedScale
    ||| e is ValueSpaceExhausted
}

/// The increment added to the state before every output.
pub open spec fn splitmix_gamma() -> u64 {
    0x9e37_79b9_7f4a_7c15
}

/// The output mixed from an advanced state.
pub open spec fn splitmix_output(state: u64) -> u64 {
    let z1 = (state ^ (state >> 30u64)).wrapping_mul(0xbf58_476d_1ce4_e5b9u64);
    let z2 = (z1 ^ (z1 >> 27u64)).wrapping_mul(0x94d0_49bb_1331_11ebu64);
    z2 ^ (z2 >> 31u64)
}

/// The fixed SplitMix64 algorithm used by every generated scale.
#[derive(Clone, Copy, Debug)]
pub struct SplitMix64 {
    state: u64,
}

impl View for SplitMix64 {
    type V = u64;

    closed spec fn view(&self) -> u64 {
        self.state
    }
}

impl SplitMix64 {
    /// A generator started at `seed`.
    pub fn new(seed: u64) -> (r: Self)
        ensures
            r@ == seed,
    {
        SplitMix64 { state: seed }
    }

    /// Advances the state by the gamma and returns the mixed state.
    pub fn next_u64(&mut self) -> (r: u64)
        ensures
            final(self)@ == old(self)@.wrapping_add(splitmix_gamma()),
            r == splitmix_output(final(self)@),
    {
        self.state = self.state.wrapping_add(0x9e37_79b9_7f4a_7c15);
        let mut value = self.state;
        value = (value ^ (value >> 30)).wrapping_mul(0xbf58_476d_1ce4_e5b9);
        value = (value ^ (value >> 27)).wrapping_mul(0x94d0_49bb_1331_11eb);
        value ^ (value >> 31)
    }
}

/// Distinct-row target and planted-witness budget for one input shape.
#[derive(Clone, Copy, Debug, PartialEq, Eq, Structural)]
pub struct Limits {
    pub distinct_rows: usize,
    pub planted_witnesses: usize,
}

/// Rows per relation, planted witnesses, and the cap on a cartesian product, per scale.
pub open spec fn scale_budget(scale: Scale) -> (nat, nat, nat) {
    match scale {
        Scale::Tiny => (96, 12, 4_096),
        Scale::Medium => (25_000, 512, 100_000),
        Scale::Large => (1_000_000, 4_096, 1_000_000),
    }
}

/// The largest `r >= 1` with `r^exponent <= value`, or 1 when none is.
pub open spec fn is_nth_root(r: int, value: int, exponent: nat) -> bool {
    &&& 1 <= r
    &&& value >= 1 ==> pow(r, exponent) <= value && pow(r + 1, exponent) > value
    &&& value < 1 ==> r == 1
}

/// The limits that `Limits::for_shape` chooses.
pub open spec fn limits_spec(scale: Scale, components: nat, root: int) -> (int, int) {
    let (rows, witnesses, cap) = scale_budget(scale);
    let distinct = if components > 1 {
        if rows <= (if root >= 2 { root } else { 2 }) {
            rows as int
        } else if root >= 2 {
            root
        } else {
            2
        }
    } else {
        rows as int
    };
    (distinct, if witnesses <= distinct { witnesses as int } else { distinct })
}

/// The limits chosen for a query of `components` connected components at
/// the given scale.
pub open spec fn shape_limits(scale: Scale, components: nat, l: Limits) -> bool {
    &&& components > 1 ==> exists|root: int|
        is_nth_root(root, scale_budget(scale).2 as int, components) && (
        l.distinct_rows as int,
        l.planted_witnesses as int,
    ) == limits_spec(scale, components, root)
    &&& components <= 1 ==> (l.distinct_rows as int, l.planted_witnesses as int) == limits_spec(scale, components, 0)
}

impl Limits {
    /// Every relation of a connected query gets the scale's full row count;
    /// a query with several components is capped so that the product of its
    /// inputs stays near the scale's cartesian cap.
    pub fn for_shape(scale: Scale, components: usize) -> (r: Self)
        ensures
            shape_limits(scale, components as nat, r),
            r.planted_witnesses <= r.distinct_rows,
            r.planted_witnesses <= 4096,
            r.distinct_rows >= 2,
            r.distinct_rows <= 1_000_000,
    {
        let (ordinary_rows, ordinary_witnesses, cartesian_cap): (usize, usize, usize) = match scale {
            Scale::Tiny => (96, 12, 4_096),
            Scale::Medium => (25_000, 512, 100_000),
            Scale::Large => (1_000_000, 4_096, 1_000_000),
        };
        let root: usize = if components > 1 { integer_nth_root(cartesian_cap, components) } else { 0 };
        let distinct_rows = if components > 1 {
            let capped = if root >= 2 { root } else { 2 };
            if ordinary_rows <= capped { ordinary_rows } else { capped }
        } else {
            ordinary_rows
        };
        let planted_witnesses = if ordinary_witnesses <= distinct_rows {
            ordinary_witnesses
        } else {
            distinct_rows
        };
        let r = Limits { distinct_rows, planted_witnesses };
        proof {
            if components > 1 {
                assert(is_nth_root(root as int, scale_budget(scale).2 as int, components as nat));
                assert((r.distinct_rows as int, r.planted_witnesses as int) == limits_spec(scale, components as nat, root as int));
            }
        }
        r
    }
}

/// Whether `base^exponent` stays within `limit`; an empty product always does.
pub fn power_at_most(base: usize, exponent: usize, limit: usize) -> (r: bool)
    ensures
        r == (exponent == 0 || pow(base as int, exponent as nat) <= limit),
{
    let mut product: usize = 1;
    let mut i: usize = 0;
    proof {
        reveal(pow);
    }
    while i < exponent
        invariant
            i <= exponent,
            product == pow(base as int, i as nat),
            i == 0 || product <= limit,
        decreases exponent - i,
    {
        proof {
            reveal(pow);
            assert(pow(base as int, (i + 1) as nat) == base * pow(base as int, i as nat));
            assert(base * product == product * base) by (nonlinear_arith);
        }
        let next = match product.checked_mul(base) {
            Some(next) => next,
            None => {
                proof {
                    lemma_pow_grows(base as nat, (i + 1) as nat, exponent as nat);
                }
                return false;
            },
        };
        if next > limit {
            proof {
                lemma_pow_grows(base as nat, (i + 1) as nat, exponent as nat);
            }
            return false;
        }
        product = next;
        i += 1;
    }
    true
}

/// Powers of a positive base never shrink as the exponent grows.
proof fn lemma_pow_grows(base: nat, e1: nat, e2: nat)
    requires
        e1 <= e2,
        e1 >= 1 || base >= 1,
    ensures
        base >= 1 ==> pow(base as int, e1) <= pow(base as int, e2),
        base == 0 && e1 >= 1 ==> pow(base as int, e1) == 0 && pow(base as int, e2) == 0,
    decreases e2,
{
    if base >= 1 {
        vstd::arithmetic::power::lemma_pow_increases(base, e1, e2);
    } else {
        lemma_zero_pow(e1);
        lemma_zero_pow(e2);
    }
}

proof fn lemma_zero_pow(e: nat)
    requires
        e >= 1,
    ensures
        pow(0, e) == 0,
{
    reveal(pow);
    assert(pow(0, e) == 0 * pow(0, (e - 1) as nat));
}

/// The largest `r >= 1` whose `exponent`-th power does not exceed `value`.
pub fn integer_nth_root(value: usize, exponent: usize) -> (r: usize)
    requires
        exponent > 0,
    ensures
        is_nth_root(r as int, value as int, exponent as nat),
        r <= if value >= 1 { value } else { 1 },
{
    let mut low: usize = 1;
    let mut high: usize = if value >= 1 { value } else { 1 };
    proof {
        vstd::arithmetic::power::lemma1_pow(exponent as nat);
    }
    while low < high
        invariant
            1 <= low <= high,
            high <= if value >= 1 { value } else { 1 },
            value >= 1 ==> pow(low as int, exponent as nat) <= value,
            exponent > 0,
            high < value ==> pow((high + 1) as int, exponent as nat) > value,
        decreases high - low,
    {
        let middle = low + (high - low + 1) / 2;
        if power_at_most(middle, exponent, value) {
            low = middle;
        } else {
            high = middle - 1;
        }
    }
    proof {
        if value >= 1 && low >= value {
            vstd::arithmetic::power::lemma_pow_increases((low + 1) as nat, 1, exponent as nat);
            vstd::arithmetic::power::lemma_pow1((low + 1) as int);
        }
    }
    low
}

/// Every set is well formed.
pub open spec fn all_wf(rows: Seq<RowSet>) -> bool {
    forall|i: int| 0 <= i < rows.len() ==> (#[trigger] rows[i]).wf()
}

/// Every value of the row is positive: it was planted, not noise.
pub open spec fn positive_row(row: Seq<i32>) -> bool {
    forall|i: int| 0 <= i < row.len() ==> #[trigger] row[i] > 0
}

/// Every row of the set holds only positive values.
pub open spec fn positive_set(rows: Set<Seq<i32>>) -> bool {
    forall|x: Seq<i32>| #[trigger] rows.contains(x) ==> positive_row(x)
}

/// Every set holds only positive rows.
pub open spec fn positive_sets(rows: Seq<RowSet>) -> bool {
    forall|p: int| 0 <= p < rows.len() ==> positive_set(#[trigger] rows[p]@.to_set())
}

/// `n` empty sets.
fn empty_sets(n: usize) -> (r: Vec<RowSet>)
    ensures
        r@.len() == n,
        all_wf(r@),
        forall|p: int| 0 <= p < n ==> (#[trigger] r@[p])@.len() == 0,
{
    let mut out: Vec<RowSet> = Vec::new();
    for i in 0..n
        invariant
            out@.len() == i,
            all_wf(out@),
            forall|p: int| 0 <= p < i ==> (#[trigger] out@[p])@.len() == 0,
    {
        out.push(RowSet::new());
    }
    out
}

/// The values an assignment gives to the variables of one atom.
pub open spec fn project_spec(slots: Seq<usize>, values: Seq<i32>) -> Seq<i32> {
    slots.map_values(|s: usize| values[s as int])
}

/// Projects an assignment onto one atom.
fn project_atom(slots: &Vec<usize>, values: &Vec<i32>) -> (r: Vec<i32>)
    requires
        forall|c: int| 0 <= c < slots@.len() ==> (#[trigger] slots@[c]) < values@.len(),
    ensures
        r@ == project_spec(slots@, values@),
{
    let mut row: Vec<i32> = Vec::new();
    for c in 0..slots.len()
        invariant
            forall|d: int| 0 <= d < slots@.len() ==> (#[trigger] slots@[d]) < values@.len(),
            row@ == project_spec(slots@.take(c as int), values@),
    {
        row.push(values[slots[c]]);
        assert(project_spec(slots@.take(c + 1), values@) =~= project_spec(slots@.take(c as int), values@).push(values@[slots@[c as int] as int]));
    }
    assert(slots@.take(slots@.len() as int) == slots@);
    row
}

/// Occurrence `k` takes part in a projection that skips `omitted` and stops at `end`.
pub open spec fn included(k: int, omitted: Option<usize>, end: int) -> bool {
    k < end && omitted != Some(k as usize)
}

/// The body shape the projections read: the input of each atom and the
/// variable slots of each atom, all within bounds.
pub open spec fn shape_ok(positions: Seq<usize>, slots: Seq<Vec<usize>>, relation_count: nat, variable_count: nat) -> bool {
    &&& positions.len() == slots.len()
    &&& forall|k: int| 0 <= k < positions.len() ==> (#[trigger] positions[k]) < relation_count
    &&& forall|k: int, c: int| 0 <= k < slots.len() && 0 <= c < slots[k]@.len() ==> (#[trigger] slots[k]@[c]) < variable_count
}

/// The rows an assignment gives to each input: exactly the projections of
/// the included occurrences that read it.
pub open spec fn projection_of(
    r: Seq<RowSet>,
    positions: Seq<usize>,
    slots: Seq<Vec<usize>>,
    values: Seq<i32>,
    omitted: Option<usize>,
    end: int,
) -> bool {
    &&& forall|p: int, row: Seq<i32>| 0 <= p < r.len() && (#[trigger] r[p]@.to_set().contains(row)) ==> exists|k: int|
        0 <= k < positions.len() && included(k, omitted, end) && positions[k] == p && row == project_spec(#[trigger] slots[k]@, values)
    &&& forall|k: int| 0 <= k < positions.len() && included(k, omitted, end) ==> r[positions[k] as int]@.to_set().contains(project_spec(#[trigger] slots[k]@, values))
}

/// The rows an assignment gives to each input, skipping `omitted` and every
/// occurrence from `end` on.
fn project_occurrences(
    positions: &Vec<usize>,
    slots: &Vec<Vec<usize>>,
    relation_count: usize,
    values: &Vec<i32>,
    omitted: Option<usize>,
    end: usize,
) -> (r: Vec<RowSet>)
    requires
        shape_ok(positions@, slots@, relation_count as nat, values@.len()),
    ensures
        r@.len() == relation_count,
        all_wf(r@),
        projection_of(r@, positions@, slots@, values@, omitted, end as int),
{
    let mut projected = empty_sets(relation_count);
    let limit = if end < positions.len() { end } else { positions.len() };
    for k in 0..limit
        invariant
            limit <= positions@.len(),
            limit <= end,
            shape_ok(positions@, slots@, relation_count as nat, values@.len()),
            projected@.len() == relation_count,
            all_wf(projected@),
            projection_of(projected@, positions@, slots@, values@, omitted, k as int),
    {
        if omitted != Some(k) {
            let row = project_atom(&slots[k], values);
            let relation = positions[k];
            let ghost before = projected@;
            let mut set = RowSet::new();
            std::mem::swap(&mut set, &mut projected[relation]);
            set.insert(row);
            std::mem::swap(&mut set, &mut projected[relation]);
            proof {
                assert(projected@ == before.update(relation as int, projected@[relation as int]));
                assert forall|p: int, x: Seq<i32>| 0 <= p < projected@.len() && (#[trigger] projected@[p]@.to_set().contains(x)) implies exists|j: int|
                    0 <= j < positions@.len() && included(j, omitted, k + 1) && positions@[j] == p && x == project_spec(#[trigger] slots@[j]@, values@) by {
                    if p == relation && x == project_spec(slots@[k as int]@, values@) {
                        assert(included(k as int, omitted, k + 1));
                    } else {
                        assert(before[p]@.to_set().contains(x));
                        let j = choose|j: int| 0 <= j < positions@.len() && included(j, omitted, k as int) && positions@[j] == p && x == project_spec(#[trigger] slots@[j]@, values@);
                        assert(included(j, omitted, k + 1));
                    }
                }
                assert forall|j: int| 0 <= j < positions@.len() && included(j, omitted, k + 1) implies projected@[positions@[j] as int]@.to_set().contains(project_spec(#[trigger] slots@[j]@, values@)) by {
                    if j < k {
                        assert(before[positions@[j] as int]@.to_set().contains(project_spec(slots@[j]@, values@)));
                    }
                }
            }
        } else {
            proof {
                assert forall|p: int, x: Seq<i32>| 0 <= p < projected@.len() && (#[trigger] projected@[p]@.to_set().contains(x)) implies exists|j: int|
                    0 <= j < positions@.len() && included(j, omitted, k + 1) && positions@[j] == p && x == project_spec(#[trigger] slots@[j]@, values@) by {
                    let j = choose|j: int| 0 <= j < positions@.len() && included(j, omitted, k as int) && positions@[j] == p && x == project_spec(#[trigger] slots@[j]@, values@);
                    assert(included(j, omitted, k + 1));
                }
            }
        }
    }
    proof {
        assert forall|p: int, x: Seq<i32>| 0 <= p < projected@.len() && (#[trigger] projected@[p]@.to_set().contains(x)) implies exists|j: int|
            0 <= j < positions@.len() && included(j, omitted, end as int) && positions@[j] == p && x == project_spec(#[trigger] slots@[j]@, values@) by {
            let j = choose|j: int| 0 <= j < positions@.len() && included(j, omitted, limit as int) && positions@[j] == p && x == project_spec(#[trigger] slots@[j]@, values@);
            assert(included(j, omitted, end as int));
        }
    }
    projected
}

/// Number of rows of `additions` missing from `existing`.
fn new_rows_count(existing: &RowSet, additions: &RowSet) -> (n: usize)
    requires
        existing.wf(),
        additions.wf(),
    ensures
        n + existing@.len() == existing@.to_set().union(additions@.to_set()).len(),
        n <= additions@.len(),
{
    let ghost a = existing@.to_set();
    let ghost b = additions@;
    let mut n: usize = 0;
    proof {
        existing.lemma_distinct();
        additions.lemma_distinct();
        crate::rows::lemma_sorted_set_len(b);
        assert(b.take(0).to_set().difference(a) =~= Set::<Seq<i32>>::empty());
    }
    let len = additions.len();
    for i in 0..len
        invariant
            len == additions@.len(),
            existing.wf(),
            additions.wf(),
            a == existing@.to_set(),
            b == additions@,
            crate::rows::strictly_sorted(b),
            n <= i,
            n == b.take(i as int).to_set().difference(a).len(),
    {
        let row = additions.get(i);
        let present = existing.contains(row);
        proof {
            let t = b.take(i as int);
            assert(b.take(i + 1) == t.push(b[i as int]));
            t.lemma_push_to_set_commute(b[i as int]);
            assert(!t.to_set().contains(b[i as int])) by {
                if t.to_set().contains(b[i as int]) {
                    let j = choose|j: int| 0 <= j < t.len() && t[j] == b[i as int];
                    crate::rows::lemma_lex_asymmetric(b[j], b[i as int]);
                }
            }
            if present {
                assert(t.push(b[i as int]).to_set().difference(a) =~= t.to_set().difference(a));
            } else {
                assert(t.push(b[i as int]).to_set().difference(a) =~= t.to_set().difference(a).insert(b[i as int]));
            }
        }
        if !present {
            n += 1;
        }
    }
    proof {
        assert(b.take(b.len() as int) == b);
        let d = b.to_set().difference(a);
        assert(a.disjoint(d));
        vstd::set_lib::lemma_set_disjoint_lens(a, d);
        assert(a + d =~= a.union(b.to_set()));
    }
    n
}

/// Whether adding every projected row keeps each input within `distinct_rows`.
fn projected_rows_fit(rows: &Vec<RowSet>, projected: &Vec<RowSet>, distinct_rows: usize) -> (r: bool)
    requires
        all_wf(rows@),
        all_wf(projected@),
    ensures
        r == forall|p: int| 0 <= p < rows@.len() && p < projected@.len() ==> (#[trigger] rows@[p])@.to_set().union(projected@[p]@.to_set()).len() <= distinct_rows,
{
    let count = if rows.len() < projected.len() { rows.len() } else { projected.len() };
    for p in 0..count
        invariant
            count <= rows@.len(),
            count <= projected@.len(),
            count == rows@.len() || count == projected@.len(),
            all_wf(rows@),
            all_wf(projected@),
            forall|q: int| 0 <= q < p ==> (#[trigger] rows@[q])@.to_set().union(projected@[q]@.to_set()).len() <= distinct_rows,
    {
        assert(rows@[p as int].wf() && projected@[p as int].wf());
        let added = new_rows_count(&rows[p], &projected[p]);
        let existing = rows[p].len();
        if !(added <= distinct_rows && existing <= distinct_rows - added) {
            return false;
        }
    }
    true
}

/// Adds every projected row to its input.
fn extend_projected_rows(rows: &mut Vec<RowSet>, projected: Vec<RowSet>)
    requires
        all_wf(old(rows)@),
        all_wf(projected@),
    ensures
        all_wf(final(rows)@),
        final(rows)@.len() == old(rows)@.len(),
        forall|p: int| 0 <= p < old(rows)@.len() ==> #[trigger] final(rows)@[p]@.to_set() == if p < projected@.len() {
            old(rows)@[p]@.to_set().union(projected@[p]@.to_set())
        } else {
            old(rows)@[p]@.to_set()
        },
{
    let ghost start = rows@;
    let ghost additions = projected@;
    let mut projected = projected;
    let count = if rows.len() < projected.len() { rows.len() } else { projected.len() };
    for p in 0..count
        invariant
            count <= rows@.len(),
            count <= additions.len(),
            rows@.len() == start.len(),
            projected@.len() == additions.len(),
            all_wf(rows@),
            forall|q: int| p <= q < additions.len() ==> (#[trigger] projected@[q]) == additions[q],
            all_wf(additions),
            forall|q: int| 0 <= q < start.len() ==> #[trigger] rows@[q]@.to_set() == if q < p {
                start[q]@.to_set().union(additions[q]@.to_set())
            } else {
                start[q]@.to_set()
            },
    {
        let mut additions_set = RowSet::new();
        std::mem::swap(&mut additions_set, &mut projected[p]);
        let new_rows = additions_set.into_vec();
        let mut target = RowSet::new();
        std::mem::swap(&mut target, &mut rows[p]);
        let ghost target_start = target@;
        assert(target_start.to_set() == start[p as int]@.to_set());
        assert(crate::rows::rows_view(new_rows@) == additions[p as int]@);
        for i in 0..new_rows.len()
            invariant
                target.wf(),
                target@.to_set() == target_start.to_set().union(crate::rows::rows_view(new_rows@).take(i as int).to_set()),
        {
            let ghost before = target@.to_set();
            target.insert(crate::dataset::clone_row(&new_rows[i]));
            proof {
                let t = crate::rows::rows_view(new_rows@);
                assert(t.take(i + 1) == t.take(i as int).push(new_rows@[i as int]@));
                t.take(i as int).lemma_push_to_set_commute(new_rows@[i as int]@);
                assert(target@.to_set() =~= target_start.to_set().union(t.take(i + 1).to_set()));
            }
        }
        proof {
            let t = crate::rows::rows_view(new_rows@);
            assert(t.take(t.len() as int) == t);
        }
        std::mem::swap(&mut target, &mut rows[p]);
    }
    proof {
        assert forall|q: int| 0 <= q < start.len() implies #[trigger] rows@[q]@.to_set() == if q < additions.len() {
            start[q]@.to_set().union(additions[q]@.to_set())
        } else {
            start[q]@.to_set()
        } by {
            if q >= count && q < additions.len() {
                assert(count == start.len());
            }
        }
    }
}

/// Adds every projected row, or fails without change when an input would
/// exceed `distinct_rows`.
fn insert_projected_rows(rows: &mut Vec<RowSet>, projected: Vec<RowSet>, distinct_rows: usize) -> (r: Result<(), GenerateError>)
    requires
        all_wf(old(rows)@),
        all_wf(projected@),
    ensures
        all_wf(final(rows)@),
        final(rows)@.len() == old(rows)@.len(),
        r is Ok <==> forall|p: int| 0 <= p < old(rows)@.len() && p < projected@.len() ==> (#[trigger] old(rows)@[p])@.to_set().union(projected@[p]@.to_set()).len() <= distinct_rows,
        r is Ok ==> forall|p: int| 0 <= p < old(rows)@.len() ==> #[trigger] final(rows)@[p]@.to_set() == if p < projected@.len() {
            old(rows)@[p]@.to_set().union(projected@[p]@.to_set())
        } else {
            old(rows)@[p]@.to_set()
        },
        r matches Err(e) ==> final(rows)@ == old(rows)@ && (e matches GenerateError::NearMissesExceedScale { distinct_rows: d } && d == distinct_rows),
{
    if !projected_rows_fit(rows, &projected, distinct_rows) {
        return Err(GenerateError::NearMissesExceedScale { distinct_rows });
    }
    extend_projected_rows(rows, projected);
    Ok(())
}

/// Each input of `left` gains the rows of the same input of `right`.
fn merge_projected(left: Vec<RowSet>, right: Vec<RowSet>) -> (r: Vec<RowSet>)
    requires
        all_wf(left@),
        all_wf(right@),
    ensures
        all_wf(r@),
        r@.len() == left@.len(),
        forall|p: int| 0 <= p < left@.len() ==> #[trigger] r@[p]@.to_set() == if p < right@.len() {
            left@[p]@.to_set().union(right@[p]@.to_set())
        } else {
            left@[p]@.to_set()
        },
{
    let mut left = left;
    extend_projected_rows(&mut left, right);
    left
}

/// The value that assignment number `a` gives to variable `i`.
pub open spec fn planted_value(base: int, stride: int, i: int, a: int) -> int {
    base + i * stride + a
}

proof fn lemma_planted_value_grows(base: int, stride: int, i: int, j: int, a: int)
    requires
        0 <= i <= j,
        stride >= 0,
    ensures
        planted_value(base, stride, i, a) <= planted_value(base, stride, j, a),
        i * stride >= 0,
{
    assert(i * stride <= j * stride) by (nonlinear_arith)
        requires 0 <= i <= j, stride >= 0;
    assert(i * stride >= 0) by (nonlinear_arith)
        requires 0 <= i, stride >= 0;
}

/// Values for every variable: variable `i` gets `base + i * stride + assignment`.
fn make_assignment(variable_count: usize, base: i64, stride: i64, assignment: usize) -> (r: Result<Vec<i32>, GenerateError>)
    requires
        base >= 0,
        stride >= 0,
        assignment <= i64::MAX,
        variable_count <= i64::MAX,
    ensures
        r is Ok <==> (variable_count == 0 || planted_value(base as int, stride as int, variable_count - 1, assignment as int) <= i32::MAX),
        r matches Ok(v) ==> v@.len() == variable_count && forall|i: int| 0 <= i < variable_count ==> #[trigger] v@[i] == planted_value(base as int, stride as int, i, assignment as int),
        r matches Ok(v) ==> forall|i: int| 0 <= i < v@.len() ==> #[trigger] v@[i] >= base,
        r matches Err(e) ==> e is ValueSpaceExhausted,
{
    let mut values: Vec<i32> = Vec::new();
    for i in 0..variable_count
        invariant
            base >= 0,
            stride >= 0,
            assignment <= i64::MAX,
            variable_count <= i64::MAX,
            values@.len() == i,
            forall|k: int| 0 <= k < i ==> #[trigger] values@[k] == planted_value(base as int, stride as int, k, assignment as int),
            forall|k: int| 0 <= k < i ==> planted_value(base as int, stride as int, k, assignment as int) <= i32::MAX,
            forall|k: int| 0 <= k < i ==> #[trigger] values@[k] >= base,
    {
        proof {
            lemma_planted_value_grows(base as int, stride as int, i as int, i as int, assignment as int);
            if i + 1 < variable_count {
                lemma_planted_value_grows(base as int, stride as int, i as int, variable_count - 1, assignment as int);
            }
        }
        let value = match (i as i64).checked_mul(stride) {
            Some(offset) => match offset.checked_add(assignment as i64) {
                Some(offset) => base.checked_add(offset),
                None => None,
            },
            None => None,
        };
        let value = match value {
            Some(v) => v,
            None => {
                proof {
                    lemma_planted_value_grows(base as int, stride as int, i as int, variable_count - 1, assignment as int);
                }
                return Err(GenerateError::ValueSpaceExhausted);
            },
        };
        if value > i32::MAX as i64 || value < i32::MIN as i64 {
            proof {
                lemma_planted_value_grows(base as int, stride as int, i as int, variable_count - 1, assignment as int);
            }
            return Err(GenerateError::ValueSpaceExhausted);
        }
        values.push(value as i32);
    }
    Ok(values)
}

/// Disjoint value ranges for the kinds of planted assignments.
#[derive(Clone, Copy, Debug)]
pub struct PlantingLayout {
    pub complete_base: i64,
    pub complete_stride: i64,
    pub anti_base: i64,
    pub anti_stride: i64,
    pub edge_base: i64,
    pub edge_stride: i64,
    pub fresh_base: i64,
    pub edge_marker_count: usize,
}

/// The base after a range of `count` variables with `stride` values each.
pub open spec fn next_base(base: int, count: int, stride: int) -> int {
    base + count * stride + 1
}

impl PlantingLayout {
    /// The ranges are consecutive, each past the end of the previous one.
    pub open spec fn laid_out(&self, complete_base: int, planted_witnesses: int, variable_count: int, membership_count: int, edge_marker_count: int) -> bool {
        &&& self.complete_base == complete_base
        &&& self.complete_stride == planted_witnesses + 1
        &&& self.anti_stride == membership_count + 1
        &&& self.anti_base == next_base(complete_base, variable_count, self.complete_stride as int)
        &&& self.edge_stride == edge_marker_count + 1
        &&& self.edge_base == next_base(self.anti_base as int, variable_count, self.anti_stride as int)
        &&& self.fresh_base == next_base(self.edge_base as int, variable_count, self.edge_stride as int)
        &&& self.edge_marker_count == edge_marker_count
    }

    /// Draws the base of the complete witnesses and lays the other ranges after it.
    pub fn new(
        rng: &mut SplitMix64,
        limits: Limits,
        variable_count: usize,
        membership_count: usize,
        edge_marker_count: usize,
    ) -> (r: Result<Self, GenerateError>)
        requires
            limits.planted_witnesses <= 1_000_000,
        ensures
            final(rng)@ == old(rng)@.wrapping_add(splitmix_gamma()),
            ({
                let complete_base = 10_000_000 + splitmix_output(final(rng)@) % 10_000_000;
                let cs = limits.planted_witnesses + 1;
                let anti = next_base(complete_base, variable_count as int, cs);
                let edge = next_base(anti, variable_count as int, membership_count + 1);
                let fresh = next_base(edge, variable_count as int, edge_marker_count + 1);
                &&& r is Ok <==> (variable_count < i64::MAX && membership_count < i64::MAX && edge_marker_count < i64::MAX && fresh <= i64::MAX)
                &&& r matches Ok(l) ==> l.laid_out(complete_base, limits.planted_witnesses as int, variable_count as int, membership_count as int, edge_marker_count as int)
                &&& r matches Err(e) ==> e is ValueSpaceExhausted
            }),
    {
        let complete_base: i64 = 10_000_000 + (rng.next_u64() % 10_000_000) as i64;
        let complete_stride: i64 = limits.planted_witnesses as i64 + 1;
        let ghost vc = variable_count as int;
        if variable_count as u64 >= i64::MAX as u64 || membership_count as u64 >= i64::MAX as u64
            || edge_marker_count as u64 >= i64::MAX as u64 {
            return Err(GenerateError::ValueSpaceExhausted);
        }
        let count = variable_count as i64;
        let anti_stride: i64 = membership_count as i64 + 1;
        let edge_stride: i64 = edge_marker_count as i64 + 1;
        proof {
            assert(vc * complete_stride >= 0) by (nonlinear_arith) requires vc >= 0, complete_stride >= 1;
            assert(vc * anti_stride >= 0) by (nonlinear_arith) requires vc >= 0, anti_stride >= 1;
            assert(vc * edge_stride >= 0) by (nonlinear_arith) requires vc >= 0, edge_stride >= 1;
        }
        let anti_base = match count.checked_mul(complete_stride) {
            Some(span) => match complete_base.checked_add(span) {
                Some(v) => v.checked_add(1),
                None => None,
            },
            None => None,
        };
        let anti_base = match anti_base {
            Some(v) => v,
            None => {
                return Err(GenerateError::ValueSpaceExhausted);
            },
        };
        let edge_base = match count.checked_mul(anti_stride) {
            Some(span) => match anti_base.checked_add(span) {
                Some(v) => v.checked_add(1),
                None => None,
            },
            None => None,
        };
        let edge_base = match edge_base {
            Some(v) => v,
            None => {
                return Err(GenerateError::ValueSpaceExhausted);
            },
        };
        let fresh_base = match count.checked_mul(edge_stride) {
            Some(span) => match edge_base.checked_add(span) {
                Some(v) => v.checked_add(1),
                None => None,
            },
            None => None,
        };
        let fresh_base = match fresh_base {
            Some(v) => v,
            None => {
                return Err(GenerateError::ValueSpaceExhausted);
            },
        };
        Ok(PlantingLayout {
            complete_base,
            complete_stride,
            anti_base,
            anti_stride,
            edge_base,
            edge_stride,
            fresh_base,
            edge_marker_count,
        })
    }

    /// A value outside every planted range, for decoys and second proofs.
    pub fn fresh_value(self, offset: usize) -> (r: Result<i32, GenerateError>)
        requires
            self.fresh_base >= 0,
            offset <= i64::MAX,
        ensures
            r is Ok <==> self.fresh_base + offset <= i32::MAX,
            r matches Ok(v) ==> v == self.fresh_base + offset,
            r matches Err(e) ==> e is ValueSpaceExhausted,
    {
        match self.fresh_base.checked_add(offset as i64) {
            Some(value) => {
                if value <= i32::MAX as i64 {
                    Ok(value as i32)
                } else {
                    Err(GenerateError::ValueSpaceExhausted)
                }
            },
            None => Err(GenerateError::ValueSpaceExhausted),
        }
    }
}

/// The row's values at the given columns, or `None` when a column is past its end.
fn project_columns(row: &Vec<i32>, columns: &Vec<usize>) -> (r: Option<Vec<i32>>)
    ensures
        match r {
            Some(v) => (forall|c: int| 0 <= c < columns@.len() ==> (#[trigger] columns@[c]) < row@.len()) && v@ == columns@.map_values(|c: usize| row@[c as int]),
            None => exists|c: int| 0 <= c < columns@.len() && (#[trigger] columns@[c]) >= row@.len(),
        },
{
    let mut out: Vec<i32> = Vec::new();
    for i in 0..columns.len()
        invariant
            forall|c: int| 0 <= c < i ==> (#[trigger] columns@[c]) < row@.len(),
            out@ == columns@.take(i as int).map_values(|c: usize| row@[c as int]),
    {
        if columns[i] >= row.len() {
            return None;
        }
        out.push(row[columns[i]]);
        assert(columns@.take(i + 1).map_values(|c: usize| row@[c as int]) =~= columns@.take(i as int).map_values(|c: usize| row@[c as int]).push(row@[columns@[i as int] as int]));
    }
    assert(columns@.take(columns@.len() as int) == columns@);
    Some(out)
}

/// The row has `key` at the key columns.
pub open spec fn has_key(row: Seq<i32>, columns: Seq<usize>, key: Seq<i32>) -> bool {
    &&& forall|c: int| 0 <= c < columns.len() ==> (#[trigger] columns[c]) < row.len()
    &&& columns.map_values(|c: usize| row[c as int]) == key
}

/// Some earlier occurrence of the same input already supplies the key that
/// the access at `occurrence` looks up.
pub open spec fn prefix_has_key(positions: Seq<usize>, slots: Seq<Vec<usize>>, values: Seq<i32>, occurrence: int, columns: Seq<usize>) -> bool {
    let key = columns.map_values(|c: usize| values[slots[occurrence]@[c as int] as int]);
    exists|k: int| 0 <= k < occurrence && positions[k] == positions[occurrence] && has_key(project_spec(#[trigger] slots[k]@, values), columns, key)
}

/// Whether the rows that the earlier occurrences insert already contain the
/// key of the access at `occurrence`, so that no missing-key probe is possible.
pub fn prefix_guarantees_key(
    occurrence: usize,
    key_columns: &Vec<usize>,
    positions: &Vec<usize>,
    slots: &Vec<Vec<usize>>,
    relation_count: usize,
    values: &Vec<i32>,
) -> (r: bool)
    requires
        shape_ok(positions@, slots@, relation_count as nat, values@.len()),
        occurrence < positions@.len(),
        forall|c: int| 0 <= c < key_columns@.len() ==> (#[trigger] key_columns@[c]) < slots@[occurrence as int]@.len(),
    ensures
        r == prefix_has_key(positions@, slots@, values@, occurrence as int, key_columns@),
{
    let prefix = project_occurrences(positions, slots, relation_count, values, None, occurrence);
    let relation = positions[occurrence];
    let target = &slots[occurrence];
    let mut key: Vec<i32> = Vec::new();
    for i in 0..key_columns.len()
        invariant
            shape_ok(positions@, slots@, relation_count as nat, values@.len()),
            occurrence < positions@.len(),
            target == &slots@[occurrence as int],
            forall|c: int| 0 <= c < key_columns@.len() ==> (#[trigger] key_columns@[c]) < target@.len(),
            key@ == key_columns@.take(i as int).map_values(|c: usize| values@[target@[c as int] as int]),
    {
        key.push(values[target[key_columns[i]]]);
        assert(key_columns@.take(i + 1).map_values(|c: usize| values@[target@[c as int] as int]) =~= key_columns@.take(i as int).map_values(|c: usize| values@[target@[c as int] as int]).push(values@[target@[key_columns@[i as int] as int] as int]));
    }
    assert(key_columns@.take(key_columns@.len() as int) == key_columns@);
    assert(key@ =~= key_columns@.map_values(|c: usize| values@[slots@[occurrence as int]@[c as int] as int]));
    let set = &prefix[relation];
    let len = set.len();
    for i in 0..len
        invariant
            len == set@.len(),
            set.wf(),
            set == &prefix@[relation as int],
            relation == positions@[occurrence as int],
            relation < prefix@.len(),
            projection_of(prefix@, positions@, slots@, values@, None, occurrence as int),
            forall|j: int| 0 <= j < i ==> !has_key(#[trigger] set@[j], key_columns@, key@),
            key@ == key_columns@.map_values(|c: usize| values@[slots@[occurrence as int]@[c as int] as int]),
    {
        let row = set.get(i);
        match project_columns(row, key_columns) {
            Some(projected) => {
                if crate::text::ints_equal(&projected, &key) {
                    proof {
                        assert(set@.to_set().contains(set@[i as int]));
                        let k = choose|k: int| 0 <= k < positions@.len() && included(k, None, occurrence as int) && positions@[k] == relation && set@[i as int] == project_spec(#[trigger] slots@[k]@, values@);
                        assert(has_key(project_spec(slots@[k]@, values@), key_columns@, key@));
                    }
                    return true;
                }
            },
            None => {},
        }
    }
    proof {
        if prefix_has_key(positions@, slots@, values@, occurrence as int, key_columns@) {
            let k = choose|k: int| 0 <= k < occurrence && positions@[k] == positions@[occurrence as int] && has_key(project_spec(#[trigger] slots@[k]@, values@), key_columns@, key@);
            assert(included(k, None, occurrence as int));
            assert(set@.to_set().contains(project_spec(slots@[k]@, values@)));
            let j = choose|j: int| 0 <= j < set@.len() && set@[j] == project_spec(slots@[k]@, values@);
            assert(has_key(set@[j], key_columns@, key@));
        }
    }
    false
}

/// Every value is positive.
pub open spec fn positive_values(values: Seq<i32>) -> bool {
    forall|i: int| 0 <= i < values.len() ==> #[trigger] values[i] > 0
}

proof fn lemma_projection_positive(
    r: Seq<RowSet>,
    positions: Seq<usize>,
    slots: Seq<Vec<usize>>,
    values: Seq<i32>,
    omitted: Option<usize>,
    end: int,
    relation_count: nat,
)
    requires
        projection_of(r, positions, slots, values, omitted, end),
        shape_ok(positions, slots, relation_count, values.len()),
        positive_values(values),
    ensures
        positive_sets(r),
{
    assert forall|p: int| 0 <= p < r.len() implies positive_set(#[trigger] r[p]@.to_set()) by {
        assert forall|x: Seq<i32>| #[trigger] r[p]@.to_set().contains(x) implies positive_row(x) by {
            let k = choose|k: int| 0 <= k < positions.len() && included(k, omitted, end) && positions[k] == p && x == project_spec(#[trigger] slots[k]@, values);
            assert forall|i: int| 0 <= i < x.len() implies #[trigger] x[i] > 0 by {
                assert(x[i] == values[slots[k]@[i] as int]);
            }
        }
    }
}

/// No value of the row lies in `[lo, hi)`.
pub open spec fn avoids_range(values: Seq<i32>, lo: int, hi: int) -> bool {
    forall|i: int| 0 <= i < values.len() ==> #[trigger] values[i] < lo || values[i] >= hi
}

/// Every row added to `old` on the way to `new` avoids `[lo, hi)`.
pub open spec fn additions_avoid(old: Seq<RowSet>, new: Seq<RowSet>, lo: int, hi: int) -> bool {
    forall|p: int, x: Seq<i32>|
        0 <= p < new.len() && #[trigger] new[p]@.to_set().contains(x) && !old[p]@.to_set().contains(x) ==> avoids_range(x, lo, hi)
}

/// Every projected row avoids the range that its assignment avoids.
proof fn lemma_projection_avoids(
    r: Seq<RowSet>,
    positions: Seq<usize>,
    slots: Seq<Vec<usize>>,
    values: Seq<i32>,
    omitted: Option<usize>,
    end: int,
    relation_count: nat,
    lo: int,
    hi: int,
)
    requires
        projection_of(r, positions, slots, values, omitted, end),
        shape_ok(positions, slots, relation_count, values.len()),
        avoids_range(values, lo, hi),
    ensures
        forall|p: int, x: Seq<i32>| 0 <= p < r.len() && #[trigger] r[p]@.to_set().contains(x) ==> avoids_range(x, lo, hi),
{
    assert forall|p: int, x: Seq<i32>| 0 <= p < r.len() && #[trigger] r[p]@.to_set().contains(x) implies avoids_range(x, lo, hi) by {
        let k = choose|k: int| 0 <= k < positions.len() && included(k, omitted, end) && positions[k] == p && x == project_spec(#[trigger] slots[k]@, values);
        assert forall|i: int| 0 <= i < x.len() implies #[trigger] x[i] < lo || x[i] >= hi by {
            assert(x[i] == values[slots[k]@[i] as int]);
        }
    }
}

/// Assignment number `a` over the range at `base` avoids `[lo, hi)` when
/// the range lies wholly at or above `hi`.
proof fn lemma_assignment_above(values: Seq<i32>, base: int, stride: int, a: int, variable_count: int, lo: int, hi: int)
    requires
        values.len() == variable_count,
        forall|i: int| 0 <= i < variable_count ==> #[trigger] values[i] == planted_value(base, stride, i, a),
        stride >= 0,
        a >= 0,
        base >= hi,
    ensures
        avoids_range(values, lo, hi),
{
    assert forall|i: int| 0 <= i < values.len() implies #[trigger] values[i] < lo || values[i] >= hi by {
        lemma_planted_value_grows(base, stride, 0, i, a);
    }
}

/// Assignment number `a` of a range whose stride exceeds `a` stays below
/// the range that starts right after it.
proof fn lemma_assignment_below(values: Seq<i32>, base: int, stride: int, a: int, variable_count: int, lo: int, hi: int)
    requires
        values.len() == variable_count,
        forall|i: int| 0 <= i < variable_count ==> #[trigger] values[i] == planted_value(base, stride, i, a),
        0 <= a < stride,
        lo == base + variable_count * stride + 1,
    ensures
        avoids_range(values, lo, hi),
{
    assert forall|i: int| 0 <= i < values.len() implies #[trigger] values[i] < lo || values[i] >= hi by {
        assert(i * stride <= (variable_count - 1) * stride) by (nonlinear_arith)
            requires 0 <= i < variable_count, stride >= 0;
        assert((variable_count - 1) * stride == variable_count * stride - stride) by (nonlinear_arith);
    }
}

/// Rows added over two growing steps avoid a range when those of each step do.
proof fn lemma_additions_chain(a: Seq<RowSet>, b: Seq<RowSet>, c: Seq<RowSet>, lo: int, hi: int)
    requires
        grows(a, b),
        grows(b, c),
        additions_avoid(a, b, lo, hi),
        additions_avoid(b, c, lo, hi),
    ensures
        grows(a, c),
        additions_avoid(a, c, lo, hi),
{
    assert forall|p: int, x: Seq<i32>| 0 <= p < c.len() && #[trigger] c[p]@.to_set().contains(x) && !a[p]@.to_set().contains(x)
        implies avoids_range(x, lo, hi) by {
        if b[p]@.to_set().contains(x) {
            assert(avoids_range(x, lo, hi));
        }
    }
    assert forall|p: int| 0 <= p < a.len() implies (#[trigger] a[p])@.to_set().subset_of(c[p]@.to_set()) by {
        assert(a[p]@.to_set().subset_of(b[p]@.to_set()));
        assert(b[p]@.to_set().subset_of(c[p]@.to_set()));
    }
}

/// The number of the edge assignment that an edge-range value comes from.
pub open spec fn edge_marker_of(x: int, layout: PlantingLayout) -> int {
    (x - layout.edge_base) % (layout.edge_stride as int)
}

/// The value lies in the range of the edge assignments.
pub open spec fn in_edge_range(x: int, layout: PlantingLayout) -> bool {
    layout.edge_base <= x < layout.fresh_base
}

/// Every edge-range value of the row comes from an edge assignment numbered below `hi`.
pub open spec fn markers_below(x: Seq<i32>, layout: PlantingLayout, hi: int) -> bool {
    forall|c: int| 0 <= c < x.len() && in_edge_range(#[trigger] x[c] as int, layout) ==> edge_marker_of(x[c] as int, layout) < hi
}

/// Every edge-range value of the row comes from an edge assignment numbered from `lo` on.
pub open spec fn markers_from(x: Seq<i32>, layout: PlantingLayout, lo: int) -> bool {
    forall|c: int| 0 <= c < x.len() && in_edge_range(#[trigger] x[c] as int, layout) ==> lo <= edge_marker_of(x[c] as int, layout)
}

/// Every row holds only edge values of assignments numbered below `hi`.
pub open spec fn rows_below(rows: Seq<RowSet>, layout: PlantingLayout, hi: int) -> bool {
    forall|p: int, x: Seq<i32>| 0 <= p < rows.len() && #[trigger] rows[p]@.to_set().contains(x) ==> markers_below(x, layout, hi)
}

/// Every row added to `old` on the way to `new` holds only edge values of
/// assignments numbered from `lo` on.
pub open spec fn additions_from(old: Seq<RowSet>, new: Seq<RowSet>, layout: PlantingLayout, lo: int) -> bool {
    forall|p: int, x: Seq<i32>|
        0 <= p < new.len() && #[trigger] new[p]@.to_set().contains(x) && !old[p]@.to_set().contains(x) ==> markers_from(x, layout, lo)
}

/// Value `i` of edge assignment `a` lies in the edge range and carries its number.
proof fn lemma_edge_value(layout: PlantingLayout, variable_count: int, i: int, a: int)
    requires
        layout.edge_stride >= 1,
        layout.fresh_base == layout.edge_base + variable_count * layout.edge_stride + 1,
        0 <= i < variable_count,
        0 <= a < layout.edge_stride,
    ensures
        in_edge_range(planted_value(layout.edge_base as int, layout.edge_stride as int, i, a), layout),
        edge_marker_of(planted_value(layout.edge_base as int, layout.edge_stride as int, i, a), layout) == a,
{
    let es = layout.edge_stride as int;
    vstd::arithmetic::div_mod::lemma_fundamental_div_mod_converse(i * es + a, es, i, a);
    assert(i * es + a < variable_count * es + 1) by (nonlinear_arith)
        requires 0 <= i < variable_count, 0 <= a < es;
    assert(i * es >= 0) by (nonlinear_arith)
        requires 0 <= i, es >= 1;
}

/// Every value of edge assignment `a`, and every value past the edge range,
/// carries a number in `[a, a + 1)`.
proof fn lemma_edge_assignment_marked(values: Seq<i32>, first: Seq<i32>, layout: PlantingLayout, a: int)
    requires
        layout.edge_stride >= 1,
        layout.fresh_base == layout.edge_base + values.len() * layout.edge_stride + 1,
        0 <= a < layout.edge_stride,
        first.len() == values.len(),
        forall|i: int| 0 <= i < values.len() ==> #[trigger] first[i] == planted_value(layout.edge_base as int, layout.edge_stride as int, i, a),
        forall|i: int| 0 <= i < values.len() ==> #[trigger] values[i] == first[i] || values[i] >= layout.fresh_base,
    ensures
        markers_below(values, layout, a + 1),
        markers_from(values, layout, a),
{
    assert forall|c: int| 0 <= c < values.len() && in_edge_range(#[trigger] values[c] as int, layout) implies edge_marker_of(values[c] as int, layout) == a by {
        lemma_edge_value(layout, values.len() as int, c, a);
    }
}

/// The rows an assignment projects to carry the edge numbers that the assignment carries.
proof fn lemma_projection_marked(
    r: Seq<RowSet>,
    positions: Seq<usize>,
    slots: Seq<Vec<usize>>,
    values: Seq<i32>,
    omitted: Option<usize>,
    end: int,
    relation_count: nat,
    layout: PlantingLayout,
    lo: int,
    hi: int,
)
    requires
        projection_of(r, positions, slots, values, omitted, end),
        shape_ok(positions, slots, relation_count, values.len()),
        markers_below(values, layout, hi),
        markers_from(values, layout, lo),
    ensures
        forall|p: int, x: Seq<i32>| 0 <= p < r.len() && #[trigger] r[p]@.to_set().contains(x) ==> markers_below(x, layout, hi) && markers_from(x, layout, lo),
{
    assert forall|p: int, x: Seq<i32>| 0 <= p < r.len() && #[trigger] r[p]@.to_set().contains(x) implies markers_below(x, layout, hi) && markers_from(x, layout, lo) by {
        let k = choose|k: int| 0 <= k < positions.len() && included(k, omitted, end) && positions[k] == p && x == project_spec(#[trigger] slots[k]@, values);
        assert forall|c: int| 0 <= c < x.len() && in_edge_range(#[trigger] x[c] as int, layout) implies edge_marker_of(x[c] as int, layout) < hi by {
            assert(x[c] == values[slots[k]@[c] as int]);
        }
        assert forall|c: int| 0 <= c < x.len() && in_edge_range(#[trigger] x[c] as int, layout) implies lo <= edge_marker_of(x[c] as int, layout) by {
            assert(x[c] == values[slots[k]@[c] as int]);
        }
    }
}

/// Rows that keep clear of the edge range are numbered from anywhere.
proof fn lemma_clear_from(before: Seq<RowSet>, after: Seq<RowSet>, layout: PlantingLayout, lo: int)
    requires
        additions_avoid(before, after, layout.edge_base as int, layout.fresh_base as int),
    ensures
        additions_from(before, after, layout, lo),
{
    assert forall|p: int, x: Seq<i32>| 0 <= p < after.len() && #[trigger] after[p]@.to_set().contains(x) && !before[p]@.to_set().contains(x)
        implies markers_from(x, layout, lo) by {
        assert(avoids_range(x, layout.edge_base as int, layout.fresh_base as int));
        assert forall|c: int| 0 <= c < x.len() && in_edge_range(#[trigger] x[c] as int, layout) implies lo <= edge_marker_of(x[c] as int, layout) by {
            assert(x[c] < layout.edge_base || x[c] >= layout.fresh_base);
        }
    }
}

/// Rows that keep clear of the edge range change no edge bound.
proof fn lemma_clear_additions(before: Seq<RowSet>, after: Seq<RowSet>, layout: PlantingLayout, hi: int, lo: int)
    requires
        grows(before, after),
        rows_below(before, layout, hi),
        additions_avoid(before, after, layout.edge_base as int, layout.fresh_base as int),
    ensures
        rows_below(after, layout, hi),
        additions_from(before, after, layout, lo),
{
    assert forall|p: int, x: Seq<i32>| 0 <= p < after.len() && #[trigger] after[p]@.to_set().contains(x) implies markers_below(x, layout, hi) by {
        if !before[p]@.to_set().contains(x) {
            assert(avoids_range(x, layout.edge_base as int, layout.fresh_base as int));
            assert forall|c: int| 0 <= c < x.len() && in_edge_range(#[trigger] x[c] as int, layout) implies edge_marker_of(x[c] as int, layout) < hi by {
                assert(x[c] < layout.edge_base || x[c] >= layout.fresh_base);
            }
        }
    }
    assert forall|p: int, x: Seq<i32>| 0 <= p < after.len() && #[trigger] after[p]@.to_set().contains(x) && !before[p]@.to_set().contains(x)
        implies markers_from(x, layout, lo) by {
        assert(avoids_range(x, layout.edge_base as int, layout.fresh_base as int));
        assert forall|c: int| 0 <= c < x.len() && in_edge_range(#[trigger] x[c] as int, layout) implies lo <= edge_marker_of(x[c] as int, layout) by {
            assert(x[c] < layout.edge_base || x[c] >= layout.fresh_base);
        }
    }
}

/// Inserting the rows of edge assignment `a` into rows of lower numbers
/// keeps every row below `a + 1`, and every addition numbered from the start.
proof fn lemma_marked_insertion(
    start: Seq<RowSet>,
    before: Seq<RowSet>,
    added: Seq<RowSet>,
    after: Seq<RowSet>,
    layout: PlantingLayout,
    lo: int,
    a: int,
)
    requires
        grows(start, before),
        grows(before, after),
        rows_below(before, layout, a),
        additions_from(start, before, layout, lo),
        lo <= a,
        forall|p: int, x: Seq<i32>| 0 <= p < after.len() && #[trigger] after[p]@.to_set().contains(x) ==> before[p]@.to_set().contains(x)
            || (p < added.len() && added[p]@.to_set().contains(x)),
        forall|p: int, x: Seq<i32>| 0 <= p < added.len() && #[trigger] added[p]@.to_set().contains(x) ==> markers_below(x, layout, a + 1) && markers_from(x, layout, a),
    ensures
        grows(start, after),
        rows_below(after, layout, a + 1),
        additions_from(start, after, layout, lo),
{
    assert forall|p: int, x: Seq<i32>| 0 <= p < after.len() && #[trigger] after[p]@.to_set().contains(x) implies markers_below(x, layout, a + 1) by {
        if before[p]@.to_set().contains(x) {
            assert(markers_below(x, layout, a));
        } else {
            assert(added[p]@.to_set().contains(x));
        }
    }
    assert forall|p: int, x: Seq<i32>| 0 <= p < after.len() && #[trigger] after[p]@.to_set().contains(x) && !start[p]@.to_set().contains(x)
        implies markers_from(x, layout, lo) by {
        if before[p]@.to_set().contains(x) {
            assert(markers_from(x, layout, lo));
        } else {
            assert(added[p]@.to_set().contains(x));
            assert(markers_from(x, layout, a));
        }
    }
    assert forall|p: int| 0 <= p < start.len() implies (#[trigger] start[p])@.to_set().subset_of(after[p]@.to_set()) by {
        assert(start[p]@.to_set().subset_of(before[p]@.to_set()));
        assert(before[p]@.to_set().subset_of(after[p]@.to_set()));
    }
}

/// A row bound tightens no further as it grows.
proof fn lemma_rows_below_grows(rows: Seq<RowSet>, layout: PlantingLayout, hi: int, hi2: int)
    requires
        rows_below(rows, layout, hi),
        hi <= hi2,
    ensures
        rows_below(rows, layout, hi2),
{
    assert forall|p: int, x: Seq<i32>| 0 <= p < rows.len() && #[trigger] rows[p]@.to_set().contains(x) implies markers_below(x, layout, hi2) by {
        assert(markers_below(x, layout, hi));
    }
}

/// Additions numbered from the start of two growing steps are numbered from
/// the start of both.
proof fn lemma_additions_from_chain(a: Seq<RowSet>, b: Seq<RowSet>, c: Seq<RowSet>, layout: PlantingLayout, lo: int, lo2: int)
    requires
        grows(a, b),
        grows(b, c),
        additions_from(a, b, layout, lo),
        additions_from(b, c, layout, lo2),
        lo <= lo2,
    ensures
        grows(a, c),
        additions_from(a, c, layout, lo),
{
    assert forall|p: int, x: Seq<i32>| 0 <= p < c.len() && #[trigger] c[p]@.to_set().contains(x) && !a[p]@.to_set().contains(x)
        implies markers_from(x, layout, lo) by {
        if b[p]@.to_set().contains(x) {
            assert(markers_from(x, layout, lo));
        } else {
            assert(markers_from(x, layout, lo2));
        }
    }
    assert forall|p: int| 0 <= p < a.len() implies (#[trigger] a[p])@.to_set().subset_of(c[p]@.to_set()) by {
        assert(a[p]@.to_set().subset_of(b[p]@.to_set()));
        assert(b[p]@.to_set().subset_of(c[p]@.to_set()));
    }
}

/// The values that occurrence `k` reads at the key columns.
pub open spec fn key_of(slots: Seq<Vec<usize>>, values: Seq<i32>, k: int, columns: Seq<usize>) -> Seq<i32> {
    columns.map_values(|c: usize| values[slots[k]@[c as int] as int])
}

/// Assignment `values` meets every occurrence before `k`, and no row of the
/// input of `k` holds, at the key columns, the values that `k` reads there.
pub open spec fn missing_key(rows: Seq<RowSet>, positions: Seq<usize>, slots: Seq<Vec<usize>>, k: int, columns: Seq<usize>, values: Seq<i32>) -> bool {
    &&& forall|j: int| 0 <= j < k ==> rows[positions[j] as int]@.to_set().contains(#[trigger] project_spec(slots[j]@, values))
    &&& forall|x: Seq<i32>| #[trigger] rows[positions[k] as int]@.to_set().contains(x) ==> !has_key(x, columns, key_of(slots, values, k, columns))
}

/// The first key value that occurrence `k` reads is an edge value.
pub open spec fn edge_keyed(values: Seq<i32>, slots: Seq<Vec<usize>>, k: int, columns: Seq<usize>, layout: PlantingLayout) -> bool {
    &&& columns.len() > 0
    &&& columns[0] < slots[k]@.len()
    &&& slots[k]@[columns[0] as int] < values.len()
    &&& in_edge_range(values[slots[k]@[columns[0] as int] as int] as int, layout)
}

/// An earlier occurrence of the same input reads, at every key column of
/// occurrence `k`, the variable slot that `k` reads there.
pub open spec fn slots_supply_key(positions: Seq<usize>, slots: Seq<Vec<usize>>, k: int, columns: Seq<usize>) -> bool {
    exists|j: int| #[trigger] supplies_key_at(positions, slots, k, columns, j)
}

/// Occurrence `j`, before `k` and of the same input, reads at every key
/// column of `k` the variable slot that `k` reads there.
pub open spec fn supplies_key_at(positions: Seq<usize>, slots: Seq<Vec<usize>>, k: int, columns: Seq<usize>, j: int) -> bool {
    &&& 0 <= j < k
    &&& positions[j] == positions[k]
    &&& forall|i: int| #![trigger columns[i]] 0 <= i < columns.len() ==> columns[i] < slots[j]@.len() && slots[j]@[columns[i] as int] == slots[k]@[columns[i] as int]
}

/// A missing key stays missing while the rows grow by rows numbered past its own.
proof fn lemma_missing_key_survives(
    before: Seq<RowSet>,
    after: Seq<RowSet>,
    positions: Seq<usize>,
    slots: Seq<Vec<usize>>,
    k: int,
    columns: Seq<usize>,
    values: Seq<i32>,
    layout: PlantingLayout,
    m: int,
)
    requires
        missing_key(before, positions, slots, k, columns, values),
        grows(before, after),
        additions_from(before, after, layout, m),
        edge_keyed(values, slots, k, columns, layout),
        edge_marker_of(values[slots[k]@[columns[0] as int] as int] as int, layout) < m,
        0 <= k < positions.len(),
        forall|j: int| 0 <= j < positions.len() ==> #[trigger] positions[j] < before.len(),
    ensures
        missing_key(after, positions, slots, k, columns, values),
{
    assert forall|j: int| 0 <= j < k implies after[positions[j] as int]@.to_set().contains(#[trigger] project_spec(slots[j]@, values)) by {
        assert(before[positions[j] as int]@.to_set().subset_of(after[positions[j] as int]@.to_set()));
    }
    let pk = positions[k] as int;
    let key = key_of(slots, values, k, columns);
    assert forall|x: Seq<i32>| #[trigger] after[pk]@.to_set().contains(x) implies !has_key(x, columns, key) by {
        if !before[pk]@.to_set().contains(x) && has_key(x, columns, key) {
            assert(markers_from(x, layout, m));
            let c0 = columns[0] as int;
            assert(x[c0] == key[0]);
            assert(in_edge_range(x[c0] as int, layout));
        }
    }
}

/// Distinct variables of one edge assignment get distinct values.
proof fn lemma_edge_values_distinct(layout: PlantingLayout, i1: int, i2: int, a: int)
    requires
        layout.edge_stride >= 1,
        planted_value(layout.edge_base as int, layout.edge_stride as int, i1, a) == planted_value(layout.edge_base as int, layout.edge_stride as int, i2, a),
    ensures
        i1 == i2,
{
    let es = layout.edge_stride as int;
    assert(i1 * es == i2 * es);
    assert(i1 == i2) by (nonlinear_arith)
        requires i1 * es == i2 * es, es >= 1;
}

/// Under an edge assignment, an earlier occurrence holds the key of `k` only
/// where it reads the same variables at the key columns.
proof fn lemma_prefix_key_slots(
    positions: Seq<usize>,
    slots: Seq<Vec<usize>>,
    values: Seq<i32>,
    k: int,
    columns: Seq<usize>,
    layout: PlantingLayout,
    a: int,
)
    requires
        prefix_has_key(positions, slots, values, k, columns),
        layout.edge_stride >= 1,
        forall|i: int| 0 <= i < values.len() ==> #[trigger] values[i] == planted_value(layout.edge_base as int, layout.edge_stride as int, i, a),
        forall|j: int, c: int| 0 <= j < slots.len() && 0 <= c < slots[j]@.len() ==> (#[trigger] slots[j]@[c]) < values.len(),
        0 <= k < slots.len(),
        forall|i: int| 0 <= i < columns.len() ==> (#[trigger] columns[i]) < slots[k]@.len(),
    ensures
        slots_supply_key(positions, slots, k, columns),
{
    let key = key_of(slots, values, k, columns);
    let j = choose|j: int| 0 <= j < k && positions[j] == positions[k] && has_key(project_spec(#[trigger] slots[j]@, values), columns, key);
    let row = project_spec(slots[j]@, values);
    assert forall|i: int| 0 <= i < columns.len() implies columns[i] < slots[j]@.len() && #[trigger] slots[j]@[columns[i] as int] == slots[k]@[columns[i] as int] by {
        assert(columns[i] < row.len());
        let c = columns[i] as int;
        assert(columns.map_values(|c: usize| row[c as int])[i] == key[i]);
        assert(row[c] == values[slots[j]@[c] as int]);
        assert(key[i] == values[slots[k]@[c] as int]);
        lemma_edge_values_distinct(layout, slots[j]@[c] as int, slots[k]@[c] as int, a);
    }
    assert(supplies_key_at(positions, slots, k, columns, j));
}

/// Assignment `values` meets every occurrence but `k`; the row of `k` is
/// absent from its input, which holds that row with column `c` changed.
pub open spec fn near_miss(rows: Seq<RowSet>, positions: Seq<usize>, slots: Seq<Vec<usize>>, k: int, c: int, values: Seq<i32>) -> bool {
    &&& forall|j: int| 0 <= j < positions.len() && j != k ==> rows[positions[j] as int]@.to_set().contains(#[trigger] project_spec(slots[j]@, values))
    &&& !rows[positions[k] as int]@.to_set().contains(project_spec(slots[k]@, values))
    &&& exists|v: i32| rows[positions[k] as int]@.to_set().contains(#[trigger] project_spec(slots[k]@, values).update(c, v))
}

/// The first value that occurrence `k` reads is an edge value.
pub open spec fn edge_row(values: Seq<i32>, slots: Seq<Vec<usize>>, k: int, layout: PlantingLayout) -> bool {
    &&& slots[k]@.len() > 0
    &&& slots[k]@[0] < values.len()
    &&& in_edge_range(values[slots[k]@[0] as int] as int, layout)
}

/// The near miss for key column number `j` of access `q` is in the rows,
/// from an edge assignment numbered below `m`.
pub open spec fn decoy_planted(
    rows: Seq<RowSet>,
    positions: Seq<usize>,
    slots: Seq<Vec<usize>>,
    accesses: Seq<AccessPattern>,
    layout: PlantingLayout,
    q: int,
    j: int,
    m: int,
) -> bool {
    exists|values: Seq<i32>|
        #[trigger] near_miss(rows, positions, slots, q, accesses[q].key_columns@[j] as int, values)
            && edge_row(values, slots, q, layout)
            && edge_marker_of(values[slots[q]@[0] as int] as int, layout) < m
}

/// The near miss for key column number `j` of access `q` is in the rows.
pub open spec fn decoy_survived(
    rows: Seq<RowSet>,
    positions: Seq<usize>,
    slots: Seq<Vec<usize>>,
    accesses: Seq<AccessPattern>,
    layout: PlantingLayout,
    q: int,
    j: int,
) -> bool {
    exists|values: Seq<i32>| #[trigger] near_miss(rows, positions, slots, q, accesses[q].key_columns@[j] as int, values) && edge_row(values, slots, q, layout)
}

/// A near miss stays one while the rows grow by rows numbered past its own.
proof fn lemma_near_miss_survives(
    before: Seq<RowSet>,
    after: Seq<RowSet>,
    positions: Seq<usize>,
    slots: Seq<Vec<usize>>,
    k: int,
    c: int,
    values: Seq<i32>,
    layout: PlantingLayout,
    m: int,
)
    requires
        near_miss(before, positions, slots, k, c, values),
        grows(before, after),
        additions_from(before, after, layout, m),
        edge_row(values, slots, k, layout),
        edge_marker_of(values[slots[k]@[0] as int] as int, layout) < m,
        0 <= k < positions.len(),
        forall|j: int| 0 <= j < positions.len() ==> #[trigger] positions[j] < before.len(),
    ensures
        near_miss(after, positions, slots, k, c, values),
{
    assert forall|j: int| 0 <= j < positions.len() && j != k implies after[positions[j] as int]@.to_set().contains(#[trigger] project_spec(slots[j]@, values)) by {
        assert(before[positions[j] as int]@.to_set().subset_of(after[positions[j] as int]@.to_set()));
    }
    let pk = positions[k] as int;
    let correct = project_spec(slots[k]@, values);
    if after[pk]@.to_set().contains(correct) {
        assert(markers_from(correct, layout, m));
        assert(correct[0] == values[slots[k]@[0] as int]);
        assert(in_edge_range(correct[0] as int, layout));
    }
    let v = choose|v: i32| before[pk]@.to_set().contains(#[trigger] project_spec(slots[k]@, values).update(c, v));
    assert(before[pk]@.to_set().subset_of(after[pk]@.to_set()));
    assert(after[pk]@.to_set().contains(project_spec(slots[k]@, values).update(c, v)));
}

/// A planted near miss survives rows numbered from `a` on, and then lies
/// below `a + 1`.
proof fn lemma_decoy_survives(
    before: Seq<RowSet>,
    after: Seq<RowSet>,
    positions: Seq<usize>,
    slots: Seq<Vec<usize>>,
    accesses: Seq<AccessPattern>,
    layout: PlantingLayout,
    q: int,
    j: int,
    a: int,
)
    requires
        decoy_planted(before, positions, slots, accesses, layout, q, j, a),
        grows(before, after),
        additions_from(before, after, layout, a),
        0 <= q < positions.len(),
        forall|k: int| 0 <= k < positions.len() ==> #[trigger] positions[k] < before.len(),
    ensures
        decoy_planted(after, positions, slots, accesses, layout, q, j, a + 1),
{
    let c = accesses[q].key_columns@[j] as int;
    let values = choose|values: Seq<i32>|
        #[trigger] near_miss(before, positions, slots, q, c, values)
            && edge_row(values, slots, q, layout)
            && edge_marker_of(values[slots[q]@[0] as int] as int, layout) < a;
    lemma_near_miss_survives(before, after, positions, slots, q, c, values, layout, a);
    assert(near_miss(after, positions, slots, q, c, values));
}

/// The state of the rows while planting: well formed, positive, within the
/// row target, and holding every chosen active duplicate.
pub open spec fn planting_ok(rows: Seq<RowSet>, active: Seq<Option<Vec<i32>>>, relation_count: nat, distinct_rows: nat) -> bool {
    &&& rows.len() == relation_count
    &&& active.len() == relation_count
    &&& all_wf(rows)
    &&& positive_sets(rows)
    &&& forall|p: int| 0 <= p < rows.len() ==> (#[trigger] rows[p])@.len() <= distinct_rows
    &&& forall|p: int| 0 <= p < active.len() ==> (#[trigger] active[p] matches Some(d) ==> rows[p]@.to_set().contains(d@))
}

/// Every set of `new` holds the rows of the same set of `old`.
pub open spec fn grows(old: Seq<RowSet>, new: Seq<RowSet>) -> bool {
    &&& old.len() == new.len()
    &&& forall|p: int| 0 <= p < old.len() ==> (#[trigger] old[p])@.to_set().subset_of(new[p]@.to_set())
}

/// Adds positive projected rows, keeping the planting state.
fn insert_planted(
    rows: &mut Vec<RowSet>,
    active: &Vec<Option<Vec<i32>>>,
    projected: Vec<RowSet>,
    relation_count: usize,
    distinct_rows: usize,
) -> (r: Result<(), GenerateError>)
    requires
        planting_ok(old(rows)@, active@, relation_count as nat, distinct_rows as nat),
        all_wf(projected@),
        positive_sets(projected@),
    ensures
        r is Ok ==> planting_ok(final(rows)@, active@, relation_count as nat, distinct_rows as nat),
        r is Ok ==> grows(old(rows)@, final(rows)@),
        r is Ok ==> forall|p: int| 0 <= p < relation_count && p < projected@.len() ==> (#[trigger] projected@[p])@.to_set().subset_of(final(rows)@[p]@.to_set()),
        r is Ok ==> forall|p: int, x: Seq<i32>| 0 <= p < final(rows)@.len() && #[trigger] final(rows)@[p]@.to_set().contains(x) ==> old(rows)@[p]@.to_set().contains(x)
            || (p < projected@.len() && projected@[p]@.to_set().contains(x)),
        r matches Err(e) ==> e matches GenerateError::NearMissesExceedScale { .. },
        r is Ok <==> forall|p: int| 0 <= p < old(rows)@.len() && p < projected@.len() ==> (#[trigger] old(rows)@[p])@.to_set().union(projected@[p]@.to_set()).len() <= distinct_rows,
{
    let ghost before = rows@;
    let ghost added = projected@;
    insert_projected_rows(rows, projected, distinct_rows)?;
    proof {
        assert forall|p: int| 0 <= p < rows@.len() implies (#[trigger] rows@[p])@.len() <= distinct_rows by {
            rows@[p].lemma_distinct();
            if p < added.len() {
                assert(before[p]@.to_set().union(added[p]@.to_set()).len() <= distinct_rows);
            } else {
                before[p].lemma_distinct();
                assert(before[p]@.len() <= distinct_rows);
            }
        }
        assert forall|p: int| 0 <= p < rows@.len() implies positive_set(#[trigger] rows@[p]@.to_set()) by {
            assert(positive_set(before[p]@.to_set()));
            if p < added.len() {
                assert(positive_set(added[p]@.to_set()));
            }
        }
        assert forall|p: int| 0 <= p < active@.len() implies (#[trigger] active@[p] matches Some(d) ==> rows@[p]@.to_set().contains(d@)) by {
            assert(before[p]@.to_set().subset_of(rows@[p]@.to_set()));
        }
    }
    Ok(())
}

/// A positive assignment from one planted range.
fn planted_assignment(variable_count: usize, base: i64, stride: i64, assignment: usize) -> (r: Result<Vec<i32>, GenerateError>)
    requires
        base >= 1,
        stride >= 0,
        assignment <= i64::MAX,
        variable_count <= i64::MAX,
    ensures
        r is Ok <==> (variable_count == 0 || planted_value(base as int, stride as int, variable_count - 1, assignment as int) <= i32::MAX),
        r matches Ok(v) ==> v@.len() == variable_count && positive_values(v@) && forall|i: int| 0 <= i < variable_count ==> #[trigger] v@[i] == planted_value(base as int, stride as int, i, assignment as int),
        r matches Err(e) ==> e is ValueSpaceExhausted,
{
    let values = make_assignment(variable_count, base, stride, assignment)?;
    proof {
        assert forall|i: int| 0 <= i < values@.len() implies #[trigger] values@[i] > 0 by {
            assert(values@[i] >= base);
        }
    }
    Ok(values)
}

/// What every planting step relies on about the body and the layout.
pub open spec fn planting_inputs(
    atoms: Seq<Atom>,
    positions: Seq<usize>,
    slots: Seq<Vec<usize>>,
    accesses: Seq<AccessPattern>,
    variables: Seq<String>,
    relation_count: nat,
    layout: PlantingLayout,
) -> bool {
    &&& shape_ok(positions, slots, relation_count, variables.len())
    &&& positions.len() == atoms.len()
    &&& slots_spec(atoms, names_view(variables), slots)
    &&& accesses.len() == atoms.len()
    &&& forall|k: int| 0 <= k < atoms.len() ==> access_spec(atoms, k, #[trigger] accesses[k])
    &&& variables.len() <= i64::MAX
    &&& layout.complete_base >= 1 && layout.anti_base >= 1 && layout.edge_base >= 1 && layout.fresh_base >= 1
    &&& layout.complete_stride >= 0 && layout.anti_stride >= 0 && layout.edge_stride >= 0
    &&& layout.edge_marker_count < i64::MAX
}

/// A copy of the assignment.
fn copy_values(values: &Vec<i32>) -> (r: Vec<i32>)
    ensures
        r@ == values@,
{
    crate::dataset::clone_row(values)
}

/// Every occurrence finds the projection of `values` in the input it reads.
pub open spec fn witnessed(rows: Seq<RowSet>, positions: Seq<usize>, slots: Seq<Vec<usize>>, values: Seq<i32>) -> bool {
    forall|k: int| 0 <= k < positions.len() ==> rows[positions[k] as int]@.to_set().contains(#[trigger] project_spec(slots[k]@, values))
}

/// The duplicate marker of an input is its least row in row order, or none
/// where nothing was planted into it.
pub open spec fn least_marker(marker: Option<Vec<i32>>, set: Set<Seq<i32>>) -> bool {
    match marker {
        Some(d) => set.contains(d@) && forall|y: Seq<i32>| #[trigger] set.contains(y) && y != d@ ==> crate::rows::lex_lt(d@, y),
        None => set == Set::<Seq<i32>>::empty(),
    }
}

/// The first complete proof: its rows become the active duplicates of the
/// inputs it reads.
fn plant_primary(
    positions: &Vec<usize>,
    slots: &Vec<Vec<usize>>,
    variable_count: usize,
    relation_count: usize,
    limits: Limits,
    layout: PlantingLayout,
    rows: &mut Vec<RowSet>,
    active: &mut Vec<Option<Vec<i32>>>,
) -> (r: Result<(), GenerateError>)
    requires
        shape_ok(positions@, slots@, relation_count as nat, variable_count as nat),
        variable_count <= i64::MAX,
        layout.complete_base >= 1,
        layout.complete_stride >= 1,
        layout.anti_base == layout.complete_base + variable_count * layout.complete_stride + 1,
        layout.edge_base >= layout.anti_base,
        planting_ok(old(rows)@, old(active)@, relation_count as nat, limits.distinct_rows as nat),
    ensures
        r matches Err(e) ==> planting_error(e),
        r is Ok ==> planting_ok(final(rows)@, final(active)@, relation_count as nat, limits.distinct_rows as nat),
        r is Ok ==> witnessed(final(rows)@, positions@, slots@, witness_values(layout, variable_count as nat, 0)),
        r is Ok ==> forall|k: int| 0 <= k < positions@.len() ==> (#[trigger] final(active)@[positions@[k] as int]) is Some,
        r is Ok ==> final(active)@.len() == relation_count && forall|p: int| 0 <= p < relation_count ==> #[trigger] least_marker(final(active)@[p],
            projected_sets(positions@, slots@, relation_count as nat, witness_values(layout, variable_count as nat, 0), None, positions@.len() as int)[p]),
        r is Ok ==> grows(old(rows)@, final(rows)@),
        r is Ok ==> additions_avoid(old(rows)@, final(rows)@, layout.edge_base as int, layout.fresh_base as int),
        r is Ok ==> row_sets(final(rows)@) == union_sets(row_sets(old(rows)@), projected_sets(positions@, slots@, relation_count as nat,
            witness_values(layout, variable_count as nat, 0), None, positions@.len() as int)),
        (variable_count == 0 || planted_value(layout.complete_base as int, layout.complete_stride as int, variable_count - 1, 0) <= i32::MAX)
            && sets_fit(row_sets(old(rows)@), projected_sets(positions@, slots@, relation_count as nat,
            witness_values(layout, variable_count as nat, 0), None, positions@.len() as int), limits.distinct_rows as nat) ==> r is Ok,
{
    let ghost start = rows@;
    let ghost goal_added = projected_sets(positions@, slots@, relation_count as nat, witness_values(layout, variable_count as nat, 0), None, positions@.len() as int);
    let primary = planted_assignment(variable_count, layout.complete_base, layout.complete_stride, 0)?;
    assert(primary@ =~= witness_values(layout, variable_count as nat, 0));
    let projected = project_occurrences(positions, slots, relation_count, &primary, None, positions.len());
    proof {
        assert forall|p: int| 0 <= p < relation_count implies (#[trigger] projected@[p])@.to_set() == goal_added[p] by {
            assert forall|x: Seq<i32>| projected@[p]@.to_set().contains(x) <==> goal_added[p].contains(x) by {
                if goal_added[p].contains(x) {
                    let k = choose|k: int| 0 <= k < positions@.len() && included(k, None, positions@.len() as int) && positions@[k] == p
                        && x == project_spec(#[trigger] slots@[k]@, witness_values(layout, variable_count as nat, 0));
                    assert(projected@[positions@[k] as int]@.to_set().contains(project_spec(slots@[k]@, primary@)));
                }
            }
            assert(projected@[p]@.to_set() =~= goal_added[p]);
        }
    }
    proof {
        lemma_projection_positive(projected@, positions@, slots@, primary@, None, positions@.len() as int, relation_count as nat);
        lemma_assignment_below(primary@, layout.complete_base as int, layout.complete_stride as int, 0, variable_count as int, layout.anti_base as int, 0x1_0000_0000);
        assert(avoids_range(primary@, layout.edge_base as int, layout.fresh_base as int));
        lemma_projection_avoids(projected@, positions@, slots@, primary@, None, positions@.len() as int, relation_count as nat, layout.edge_base as int, layout.fresh_base as int);
    }
    let mut chosen: Vec<Option<Vec<i32>>> = Vec::new();
    for relation in 0..relation_count
        invariant
            projected@.len() == relation_count,
            all_wf(projected@),
            chosen@.len() == relation,
            forall|p: int| 0 <= p < relation ==> (#[trigger] chosen@[p] matches Some(d) ==> projected@[p]@.to_set().contains(d@)),
            forall|p: int| 0 <= p < relation && projected@[p]@.len() > 0 ==> (#[trigger] chosen@[p]) is Some,
            forall|p: int| 0 <= p < relation ==> #[trigger] least_marker(chosen@[p], projected@[p]@.to_set()),
    {
        let set = &projected[relation];
        proof {
            assert(projected@[relation as int] == *set);
            set.lemma_distinct();
        }
        if set.len() > 0 {
            let row = crate::dataset::clone_row(set.get(0));
            assert(set@.to_set().contains(set@[0]));
            proof {
                assert forall|y: Seq<i32>| #[trigger] set@.to_set().contains(y) && y != row@ implies crate::rows::lex_lt(row@, y) by {
                    let i = choose|i: int| 0 <= i < set@.len() && set@[i] == y;
                    assert(i != 0);
                }
            }
            chosen.push(Some(row));
        } else {
            assert(set@.to_set() =~= Set::<Seq<i32>>::empty());
            chosen.push(None);
        }
        proof {
            assert forall|p: int| 0 <= p < relation + 1 implies #[trigger] least_marker(chosen@[p], projected@[p]@.to_set()) by {
                if p < relation {
                    assert(least_marker(chosen@[p], projected@[p]@.to_set()));
                }
            }
        }
    }
    let ghost added = projected@;
    proof {
        if sets_fit(row_sets(start), goal_added, limits.distinct_rows as nat) {
            assert forall|p: int| 0 <= p < rows@.len() && p < added.len() implies (#[trigger] rows@[p])@.to_set().union(added[p]@.to_set()).len()
                <= limits.distinct_rows by {
                assert(row_sets(start)[p] == start[p]@.to_set());
                assert(added[p]@.to_set() == goal_added[p]);
            }
        }
    }
    insert_planted(rows, active, projected, relation_count, limits.distinct_rows)?;
    *active = chosen;
    proof {
        assert(row_sets(rows@) =~= union_sets(row_sets(start), goal_added)) by {
            assert forall|p: int| 0 <= p < relation_count implies #[trigger] row_sets(rows@)[p] == union_sets(row_sets(start), goal_added)[p] by {
                assert(added[p]@.to_set() == goal_added[p]);
                assert(rows@[p]@.to_set() =~= start[p]@.to_set().union(added[p]@.to_set()));
            }
        }
        assert forall|k: int| 0 <= k < positions@.len() implies (#[trigger] active@[positions@[k] as int]) is Some by {
            let p = positions@[k] as int;
            assert(included(k, None, positions@.len() as int));
            assert(added[p]@.to_set().contains(project_spec(slots@[k]@, primary@)));
            assert(added[p]@.len() > 0);
        }
        assert forall|p: int| 0 <= p < active@.len() implies (#[trigger] active@[p] matches Some(d) ==> rows@[p]@.to_set().contains(d@)) by {
            assert(added[p]@.to_set().subset_of(rows@[p]@.to_set()));
        }
        assert forall|k: int| 0 <= k < positions@.len() implies rows@[positions@[k] as int]@.to_set().contains(#[trigger] project_spec(slots@[k]@, primary@)) by {
            assert(included(k, None, positions@.len() as int));
            assert(added[positions@[k] as int]@.to_set().contains(project_spec(slots@[k]@, primary@)));
            assert(added[positions@[k] as int]@.to_set().subset_of(rows@[positions@[k] as int]@.to_set()));
        }
        assert(witnessed(rows@, positions@, slots@, primary@));
        assert forall|p: int| 0 <= p < relation_count implies #[trigger] least_marker(active@[p], goal_added[p]) by {
            assert(least_marker(chosen@[p], added[p]@.to_set()));
            assert(added[p]@.to_set() == goal_added[p]);
        }
    }
    Ok(())
}

/// No other occurrence reads the input of a composite-key lookup through the
/// same variable slots.
pub open spec fn composites_distinct(positions: Seq<usize>, slots: Seq<Vec<usize>>, accesses: Seq<AccessPattern>) -> bool {
    forall|i: int, k: int|
        #![trigger accesses[i], slots[k]]
        0 <= i < accesses.len() && accesses[i].key_columns@.len() >= 2 && 0 <= k < positions.len() && k != i && positions[k] == positions[i]
            ==> slots[k]@ != slots[i]@
}

/// No access uses a key of two or more columns.
pub open spec fn no_composite_keys(accesses: Seq<AccessPattern>) -> bool {
    forall|i: int| 0 <= i < accesses.len() ==> (#[trigger] accesses[i]).key_columns@.len() < 2
}

/// The values of anti-witness assignment number `j`.
pub open spec fn anti_assignment(values: Seq<i32>, layout: PlantingLayout, variable_count: int, j: int) -> bool {
    &&& values.len() == variable_count
    &&& forall|i: int| 0 <= i < variable_count ==> #[trigger] values[i] == planted_value(layout.anti_base as int, layout.anti_stride as int, i, j)
}

/// Every occurrence but `m` finds its projection of `values`, and the
/// projection on `m`, unless empty, is absent from the input it reads.
pub open spec fn left_out(rows: Seq<RowSet>, positions: Seq<usize>, slots: Seq<Vec<usize>>, m: int, values: Seq<i32>) -> bool {
    &&& forall|k: int| 0 <= k < positions.len() && k != m ==> rows[positions[k] as int]@.to_set().contains(#[trigger] project_spec(slots[k]@, values))
    &&& slots[m]@.len() > 0 ==> !rows[positions[m] as int]@.to_set().contains(project_spec(slots[m]@, values))
}

/// Anti-witness `j` leaves membership `memberships[j]` out.
pub open spec fn anti_witnessed(
    rows: Seq<RowSet>,
    positions: Seq<usize>,
    slots: Seq<Vec<usize>>,
    memberships: Seq<usize>,
    layout: PlantingLayout,
    variable_count: int,
    j: int,
) -> bool {
    exists|values: Seq<i32>| anti_assignment(values, layout, variable_count, j) && #[trigger] left_out(rows, positions, slots, memberships[j] as int, values)
}

/// Values of one range with a stride past every assignment number tell the
/// assignment numbers apart.
proof fn lemma_planted_value_unique(base: int, stride: int, i1: int, a1: int, i2: int, a2: int)
    requires
        0 <= a1 < stride,
        0 <= a2 < stride,
        planted_value(base, stride, i1, a1) == planted_value(base, stride, i2, a2),
    ensures
        a1 == a2,
{
    let x = i1 * stride + a1;
    assert(x == i2 * stride + a2);
    vstd::arithmetic::div_mod::lemma_fundamental_div_mod_converse_mod(x, stride, i1, a1);
    vstd::arithmetic::div_mod::lemma_fundamental_div_mod_converse_mod(x, stride, i2, a2);
}

/// The values of anti-witness assignment number `j`.
pub open spec fn anti_values(layout: PlantingLayout, variable_count: nat, j: int) -> Seq<i32> {
    Seq::new(variable_count, |i: int| planted_value(layout.anti_base as int, layout.anti_stride as int, i, j) as i32)
}

/// No other occurrence reads the input of a membership through the same
/// variable slots.
pub open spec fn memberships_distinct(positions: Seq<usize>, slots: Seq<Vec<usize>>, memberships: Seq<usize>) -> bool {
    forall|j: int, k: int|
        #![trigger memberships[j], slots[k]]
        0 <= j < memberships.len() && 0 <= k < positions.len() && k != memberships[j] && positions[k] == positions[memberships[j] as int]
            ==> slots[k]@ != slots[memberships[j] as int]@
}

/// Every value of every row lies below `bound`.
pub open spec fn values_below(rows: Seq<RowSet>, bound: int) -> bool {
    forall|p: int, x: Seq<i32>, c: int|
        #![trigger rows[p]@.to_set().contains(x), x[c]]
        0 <= p < rows.len() && rows[p]@.to_set().contains(x) && 0 <= c < x.len() ==> x[c] < bound
}

/// Every row of `new` is a row of `old` or has the width of an occurrence
/// that reads its input.
pub open spec fn occurrence_widths(old: Seq<RowSet>, new: Seq<RowSet>, positions: Seq<usize>, slots: Seq<Vec<usize>>) -> bool {
    forall|p: int, x: Seq<i32>|
        0 <= p < new.len() && #[trigger] new[p]@.to_set().contains(x) ==> old[p]@.to_set().contains(x) || exists|k: int|
            0 <= k < positions.len() && positions[k] == p && x.len() == (#[trigger] slots[k])@.len()
}

/// The rows that a decoy step adds to one input: the projections of the
/// other occurrences, and the decoy in the input of the omitted one.
proof fn lemma_added_len(
    before: Seq<RowSet>,
    added: Seq<RowSet>,
    positions: Seq<usize>,
    slots: Seq<Vec<usize>>,
    values: Seq<i32>,
    omitted: usize,
    relation: int,
    decoy: Seq<i32>,
    p: int,
)
    requires
        projection_of(before, positions, slots, values, Some(omitted), positions.len() as int),
        added.len() == before.len(),
        0 <= p < before.len(),
        0 <= relation < before.len(),
        omitted < positions.len(),
        p != relation ==> added[p] == before[p],
        added[relation]@.to_set() == before[relation]@.to_set().insert(decoy),
    ensures
        added[p]@.to_set().finite(),
        added[p]@.to_set().len() <= 2 * positions.len(),
{
    lemma_projection_len(before, positions, slots, values, Some(omitted), positions.len() as int, p);
    if p == relation {
        vstd::set_lib::lemma_set_insert_finite_iff(before[p]@.to_set(), decoy);
        if !before[p]@.to_set().contains(decoy) {
            assert(before[p]@.to_set().insert(decoy).len() == before[p]@.to_set().len() + 1);
        } else {
            assert(before[p]@.to_set().insert(decoy) =~= before[p]@.to_set());
        }
    }
}

/// The rows that the first `upto` anti-witnesses add to `sets`: each one's
/// projections into every occurrence but its membership.
pub open spec fn anti_sets(
    sets: Seq<Set<Seq<i32>>>,
    positions: Seq<usize>,
    slots: Seq<Vec<usize>>,
    memberships: Seq<usize>,
    layout: PlantingLayout,
    variable_count: nat,
    upto: nat,
) -> Seq<Set<Seq<i32>>>
    decreases upto,
{
    if upto == 0 {
        sets
    } else {
        union_sets(
            anti_sets(sets, positions, slots, memberships, layout, variable_count, (upto - 1) as nat),
            projected_sets(positions, slots, sets.len(), anti_values(layout, variable_count, upto - 1), Some(memberships[upto - 1]), positions.len() as int),
        )
    }
}

/// Projected row sets are the sets of `projected_sets`.
proof fn lemma_projection_sets(
    r: Seq<RowSet>,
    positions: Seq<usize>,
    slots: Seq<Vec<usize>>,
    values: Seq<i32>,
    omitted: Option<usize>,
    end: int,
)
    requires
        projection_of(r, positions, slots, values, omitted, end),
    ensures
        row_sets(r) == projected_sets(positions, slots, r.len(), values, omitted, end),
{
    let goal = projected_sets(positions, slots, r.len(), values, omitted, end);
    assert forall|p: int| 0 <= p < r.len() implies #[trigger] row_sets(r)[p] == goal[p] by {
        assert forall|x: Seq<i32>| r[p]@.to_set().contains(x) <==> goal[p].contains(x) by {
            if goal[p].contains(x) {
                let k = choose|k: int| 0 <= k < positions.len() && included(k, omitted, end) && positions[k] == p
                    && x == project_spec(#[trigger] slots[k]@, values);
                assert(r[positions[k] as int]@.to_set().contains(project_spec(slots[k]@, values)));
            }
        }
        assert(r[p]@.to_set() =~= goal[p]);
    }
    assert(row_sets(r) =~= goal);
}

/// Inserting planted rows unites the row sets.
proof fn lemma_inserted_sets(before: Seq<RowSet>, added: Seq<RowSet>, after: Seq<RowSet>)
    requires
        after.len() == before.len(),
        added.len() == before.len(),
        forall|p: int| 0 <= p < before.len() ==> (#[trigger] before[p])@.to_set().subset_of(after[p]@.to_set()),
        forall|p: int| 0 <= p < before.len() ==> (#[trigger] added[p])@.to_set().subset_of(after[p]@.to_set()),
        forall|p: int, x: Seq<i32>| 0 <= p < after.len() && #[trigger] after[p]@.to_set().contains(x) ==> before[p]@.to_set().contains(x)
            || added[p]@.to_set().contains(x),
    ensures
        row_sets(after) == union_sets(row_sets(before), row_sets(added)),
{
    assert forall|p: int| 0 <= p < after.len() implies #[trigger] row_sets(after)[p] == union_sets(row_sets(before), row_sets(added))[p] by {
        assert(after[p]@.to_set() =~= before[p]@.to_set().union(added[p]@.to_set()));
    }
    assert(row_sets(after) =~= union_sets(row_sets(before), row_sets(added)));
}

/// Equal planted values of one assignment come from the same variable.
proof fn lemma_planted_index_unique(base: int, stride: int, i1: int, i2: int, a: int)
    requires
        stride >= 1,
        planted_value(base, stride, i1, a) == planted_value(base, stride, i2, a),
    ensures
        i1 == i2,
{
    assert((i1 - i2) * stride == 0) by (nonlinear_arith)
        requires base + i1 * stride + a == base + i2 * stride + a;
    assert(i1 - i2 == 0) by (nonlinear_arith)
        requires (i1 - i2) * stride == 0, stride >= 1;
}

/// The rows an assignment gives one input are at most one per occurrence.
proof fn lemma_projection_len(
    r: Seq<RowSet>,
    positions: Seq<usize>,
    slots: Seq<Vec<usize>>,
    values: Seq<i32>,
    omitted: Option<usize>,
    end: int,
    p: int,
)
    requires
        projection_of(r, positions, slots, values, omitted, end),
        0 <= p < r.len(),
    ensures
        r[p]@.to_set().finite(),
        r[p]@.to_set().len() <= positions.len(),
{
    let set = r[p]@.to_set();
    let all = Seq::new(positions.len(), |k: int| project_spec(slots[k]@, values));
    assert(set.subset_of(all.to_set())) by {
        assert forall|x: Seq<i32>| set.contains(x) implies all.to_set().contains(x) by {
            let k = choose|k: int| 0 <= k < positions.len() && included(k, omitted, end) && positions[k] == p
                && x == project_spec(#[trigger] slots[k]@, values);
            assert(all[k] == x);
        }
    }
    vstd::seq_lib::seq_to_set_is_finite(all);
    all.lemma_cardinality_of_set();
    vstd::set_lib::lemma_set_subset_finite(all.to_set(), set);
    vstd::set_lib::lemma_len_subset(set, all.to_set());
}

/// A full-key lookup is otherwise observationally redundant on data made
/// only from complete witnesses. Every such occurrence gets its own
/// assignment whose other occurrences are inserted while its own row is
/// deliberately left out.
#[verifier::loop_isolation(false)]
fn plant_anti_witnesses(
    atoms: &Vec<Atom>,
    positions: &Vec<usize>,
    slots: &Vec<Vec<usize>>,
    memberships: &Vec<usize>,
    variable_count: usize,
    relation_count: usize,
    limits: Limits,
    layout: PlantingLayout,
    rows: &mut Vec<RowSet>,
    active: &Vec<Option<Vec<i32>>>,
) -> (r: Result<(), GenerateError>)
    requires
        shape_ok(positions@, slots@, relation_count as nat, variable_count as nat),
        positions@.len() == atoms@.len(),
        forall|j: int| 0 <= j < memberships@.len() ==> (#[trigger] memberships@[j]) < atoms@.len(),
        memberships@.len() < i64::MAX,
        variable_count <= i64::MAX,
        layout.anti_base >= 1,
        layout.anti_stride >= 0,
        planting_ok(old(rows)@, active@, relation_count as nat, limits.distinct_rows as nat),
        layout.anti_stride == memberships@.len() + 1,
        layout.edge_base == layout.anti_base + variable_count * layout.anti_stride + 1,
    ensures
        r matches Err(e) ==> planting_error(e),
        r is Ok ==> planting_ok(final(rows)@, active@, relation_count as nat, limits.distinct_rows as nat),
        r is Ok ==> grows(old(rows)@, final(rows)@),
        r is Ok ==> forall|j: int| 0 <= j < memberships@.len() ==> #[trigger] anti_witnessed(final(rows)@, positions@, slots@, memberships@, layout, variable_count as int, j),
        r is Ok ==> additions_avoid(old(rows)@, final(rows)@, layout.edge_base as int, layout.fresh_base as int),
        memberships@.len() == 0 ==> r is Ok && final(rows)@ == old(rows)@,
        r is Ok ==> row_sets(final(rows)@) == anti_sets(row_sets(old(rows)@), positions@, slots@, memberships@, layout, variable_count as nat,
            memberships@.len()),
        memberships_distinct(positions@, slots@, memberships@) && (forall|j: int| 0 <= j < memberships@.len() ==> (#[trigger] slots@[memberships@[j] as int])@.len() > 0)
            && values_below(old(rows)@, layout.anti_base as int) && layout.edge_base <= i32::MAX
            && (forall|p: int| 0 <= p < old(rows)@.len() ==> (#[trigger] old(rows)@[p])@.len() + memberships@.len() * positions@.len() <= limits.distinct_rows)
            ==> r is Ok && occurrence_widths(old(rows)@, final(rows)@, positions@, slots@)
                && forall|p: int| 0 <= p < final(rows)@.len() ==> (#[trigger] final(rows)@[p])@.len() <= old(rows)@[p]@.len() + memberships@.len() * positions@.len(),
{
    let ghost start_rows = rows@;
    let ghost n = positions@.len() as int;
    let ghost owed = memberships_distinct(positions@, slots@, memberships@) && (forall|j: int| 0 <= j < memberships@.len() ==> (#[trigger] slots@[memberships@[j] as int])@.len() > 0)
            && values_below(start_rows, layout.anti_base as int) && layout.edge_base <= i32::MAX
            && (forall|p: int| 0 <= p < start_rows.len() ==> (#[trigger] start_rows[p])@.len() + memberships@.len() * positions@.len() <= limits.distinct_rows);
    for anti_witness in 0..memberships.len()
        invariant
            owed ==> memberships_distinct(positions@, slots@, memberships@) && (forall|j: int| 0 <= j < memberships@.len() ==> (#[trigger] slots@[memberships@[j] as int])@.len() > 0)
                && values_below(start_rows, layout.anti_base as int) && layout.edge_base <= i32::MAX
                && (forall|p: int| 0 <= p < start_rows.len() ==> (#[trigger] start_rows[p])@.len() + memberships@.len() * positions@.len() <= limits.distinct_rows),
            n == positions@.len(),
            owed ==> forall|p: int| 0 <= p < rows@.len() ==> (#[trigger] rows@[p])@.len() <= start_rows[p]@.len() + anti_witness * n,
            row_sets(rows@) == anti_sets(row_sets(start_rows), positions@, slots@, memberships@, layout, variable_count as nat, anti_witness as nat),
            owed ==> forall|p: int, x: Seq<i32>| 0 <= p < rows@.len() && #[trigger] rows@[p]@.to_set().contains(x) ==> start_rows[p]@.to_set().contains(x)
                || exists|j: int, k: int| 0 <= j < anti_witness && 0 <= k < n && positions@[k] == p && x == #[trigger] project_spec(slots@[k]@, anti_values(layout, variable_count as nat, j)),
            shape_ok(positions@, slots@, relation_count as nat, variable_count as nat),
            positions@.len() == atoms@.len(),
            forall|j: int| 0 <= j < memberships@.len() ==> (#[trigger] memberships@[j]) < atoms@.len(),
            memberships@.len() < i64::MAX,
            variable_count <= i64::MAX,
            layout.anti_base >= 1,
            layout.anti_stride >= 0,
            planting_ok(rows@, active@, relation_count as nat, limits.distinct_rows as nat),
            grows(start_rows, rows@),
            layout.anti_stride == memberships@.len() + 1,
            layout.edge_base == layout.anti_base + variable_count * layout.anti_stride + 1,
            forall|j: int| 0 <= j < anti_witness ==> #[trigger] anti_witnessed(rows@, positions@, slots@, memberships@, layout, variable_count as int, j),
            additions_avoid(start_rows, rows@, layout.edge_base as int, layout.fresh_base as int),
            memberships@.len() == 0 ==> rows@ == start_rows,
    {
        let omitted = memberships[anti_witness];
        assert(omitted < atoms.len());
        proof {
            if owed && variable_count > 0 {
                let vc = variable_count as int;
                let st = layout.anti_stride as int;
                let aw = anti_witness as int;
                assert((vc - 1) * st + aw < vc * st) by (nonlinear_arith) requires vc >= 1, 0 <= aw < st;
            }
        }
        let assignment = planted_assignment(variable_count, layout.anti_base, layout.anti_stride, anti_witness)?;
        assert(assignment@ =~= anti_values(layout, variable_count as nat, anti_witness as int));
        let projected = project_occurrences(positions, slots, relation_count, &assignment, Some(omitted), positions.len());
        proof {
            lemma_projection_positive(projected@, positions@, slots@, assignment@, Some(omitted), positions@.len() as int, relation_count as nat);
        }
        let relation = positions[omitted];
        let omitted_row = project_atom(&slots[omitted], &assignment);
        proof {
            if owed {
                let aw = anti_witness as int;
                let m = omitted as int;
                let pm = relation as int;
                assert(slots@[m]@.len() > 0);
                let s0 = slots@[m]@[0] as int;
                assert(omitted_row@[0] == assignment@[s0]);
                if projected@[pm]@.to_set().contains(omitted_row@) {
                    let k = choose|k: int| 0 <= k < positions@.len() && included(k, Some(omitted), positions@.len() as int) && positions@[k] == pm
                        && omitted_row@ == project_spec(#[trigger] slots@[k]@, assignment@);
                    assert(omitted_row@.len() == slots@[m]@.len());
                    assert(omitted_row@.len() == slots@[k]@.len());
                    assert(slots@[k]@ =~= slots@[m]@) by {
                        assert forall|c: int| 0 <= c < slots@[k]@.len() implies slots@[k]@[c] == slots@[m]@[c] by {
                            let a = slots@[k]@[c] as int;
                            let b = slots@[m]@[c] as int;
                            assert(a < variable_count && b < variable_count);
                            assert(omitted_row@[c] == assignment@[a]);
                            assert(omitted_row@[c] == assignment@[b]);
                            lemma_planted_index_unique(layout.anti_base as int, layout.anti_stride as int, a, b, aw);
                        }
                    }
                    assert(memberships@[aw] == omitted);
                    assert(false);
                }
                if rows@[pm]@.to_set().contains(omitted_row@) {
                    lemma_planted_value_grows(layout.anti_base as int, layout.anti_stride as int, 0, s0, aw);
                    if start_rows[pm]@.to_set().contains(omitted_row@) {
                        assert(omitted_row@[0] < layout.anti_base);
                    } else {
                        let (j, k) = choose|j: int, k: int| 0 <= j < aw && 0 <= k < n && positions@[k] == pm
                            && omitted_row@ == #[trigger] project_spec(slots@[k]@, anti_values(layout, variable_count as nat, j));
                        let s1 = slots@[k]@[0] as int;
                        let (ab, st, vc) = (layout.anti_base as int, layout.anti_stride as int, variable_count as int);
                        assert(0 <= s1 < vc);
                        lemma_planted_value_grows(ab, st, s1, vc - 1, j);
                        lemma_planted_value_grows(ab, st, 0, s1, j);
                        assert((vc - 1) * st + j < vc * st) by (nonlinear_arith) requires vc >= 1, 0 <= j < st;
                        assert(planted_value(ab, st, s1, j) <= i32::MAX);
                        assert(omitted_row@[0] == anti_values(layout, variable_count as nat, j)[s1]);
                        assert(anti_values(layout, variable_count as nat, j)[s1] == planted_value(ab, st, s1, j));
                        lemma_planted_value_unique(ab, st, s1, j, s0, aw);
                    }
                }
            }
        }
        if projected[relation].contains(&omitted_row) || rows[relation].contains(&omitted_row) {
            return Err(GenerateError::IndistinguishableMembership {
                occurrence: omitted + 1,
                relation: crate::model::clone_string(&atoms[omitted].relation),
            });
        }
        let ghost before = rows@;
        let ghost added = projected@;
        proof {
            lemma_assignment_below(assignment@, layout.anti_base as int, layout.anti_stride as int, anti_witness as int, variable_count as int, layout.edge_base as int, 0x1_0000_0000);
            assert(avoids_range(assignment@, layout.edge_base as int, layout.fresh_base as int));
            lemma_projection_avoids(projected@, positions@, slots@, assignment@, Some(omitted), positions@.len() as int, relation_count as nat, layout.edge_base as int, layout.fresh_base as int);
        }
        proof {
            if owed {
                let aw = anti_witness as int;
                assert forall|p: int| 0 <= p < before.len() && p < added.len() implies (#[trigger] before[p])@.to_set().union(added[p]@.to_set()).len()
                    <= limits.distinct_rows by {
                    lemma_projection_len(added, positions@, slots@, assignment@, Some(omitted), positions@.len() as int, p);
                    before[p].lemma_distinct();
                    vstd::seq_lib::seq_to_set_is_finite(before[p]@);
                    vstd::set_lib::lemma_len_union(before[p]@.to_set(), added[p]@.to_set());
                    assert((aw + 1) * n <= memberships@.len() * n) by (nonlinear_arith) requires aw + 1 <= memberships@.len(), n >= 0;
                    assert(aw * n + n == (aw + 1) * n) by (nonlinear_arith);
                }
            }
        }
        insert_planted(rows, active, projected, relation_count, limits.distinct_rows)?;
        proof {
            lemma_projection_sets(added, positions@, slots@, assignment@, Some(omitted), positions@.len() as int);
            lemma_inserted_sets(before, added, rows@);
            assert(row_sets(start_rows).len() == relation_count);
        }
        proof {
            assert(additions_avoid(before, rows@, layout.edge_base as int, layout.fresh_base as int));
            lemma_additions_chain(start_rows, before, rows@, layout.edge_base as int, layout.fresh_base as int);
            if owed {
                let aw = anti_witness as int;
                assert forall|p: int| 0 <= p < rows@.len() implies (#[trigger] rows@[p])@.len() <= start_rows[p]@.len() + (aw + 1) * n by {
                    lemma_projection_len(added, positions@, slots@, assignment@, Some(omitted), positions@.len() as int, p);
                    before[p].lemma_distinct();
                    rows@[p].lemma_distinct();
                    vstd::seq_lib::seq_to_set_is_finite(before[p]@);
                    vstd::set_lib::lemma_len_union(before[p]@.to_set(), added[p]@.to_set());
                    assert(rows@[p]@.to_set().subset_of(before[p]@.to_set().union(added[p]@.to_set())));
                    vstd::set_lib::lemma_len_subset(rows@[p]@.to_set(), before[p]@.to_set().union(added[p]@.to_set()));
                    assert(aw * n + n == (aw + 1) * n) by (nonlinear_arith);
                }
                assert forall|p: int, x: Seq<i32>| 0 <= p < rows@.len() && #[trigger] rows@[p]@.to_set().contains(x) implies start_rows[p]@.to_set().contains(x)
                    || exists|j: int, k: int| 0 <= j < aw + 1 && 0 <= k < n && positions@[k] == p && x == #[trigger] project_spec(slots@[k]@, anti_values(layout, variable_count as nat, j)) by {
                    if !before[p]@.to_set().contains(x) {
                        assert(added[p]@.to_set().contains(x));
                        let k = choose|k: int| 0 <= k < positions@.len() && included(k, Some(omitted), positions@.len() as int) && positions@[k] == p
                            && x == project_spec(#[trigger] slots@[k]@, assignment@);
                        assert(x == project_spec(slots@[k]@, anti_values(layout, variable_count as nat, aw)));
                    }
                }
            }
        }
        proof {
            let t = anti_witness as int;
            assert(anti_assignment(assignment@, layout, variable_count as int, t));
            assert forall|j: int| 0 <= j < anti_witness + 1 implies #[trigger] anti_witnessed(rows@, positions@, slots@, memberships@, layout, variable_count as int, j) by {
                if j < t {
                    assert(anti_witnessed(before, positions@, slots@, memberships@, layout, variable_count as int, j));
                    let values = choose|values: Seq<i32>| anti_assignment(values, layout, variable_count as int, j) && #[trigger] left_out(before, positions@, slots@, memberships@[j] as int, values);
                    let m = memberships@[j] as int;
                    let omitted_j = project_spec(slots@[m]@, values);
                    let pm = positions@[m] as int;
                    assert(m < positions@.len());
                    assert(pm < rows@.len());
                    if slots@[m]@.len() > 0 && rows@[pm]@.to_set().contains(omitted_j) {
                        assert(!before[pm]@.to_set().contains(omitted_j));
                        assert(pm < added.len());
                        assert(added[pm]@.to_set().contains(omitted_j));
                        assert(projection_of(added, positions@, slots@, assignment@, Some(omitted), positions@.len() as int));
                        let k = choose|k: int| 0 <= k < positions@.len() && included(k, Some(omitted), positions@.len() as int) && positions@[k] == pm
                            && omitted_j == project_spec(#[trigger] slots@[k]@, assignment@);
                        assert(omitted_j.len() == slots@[k]@.len());
                        let s1 = slots@[k]@[0] as int;
                        let s2 = slots@[m]@[0] as int;
                        assert(omitted_j[0] == assignment@[s1]);
                        assert(omitted_j[0] == values[s2]);
                        lemma_planted_value_unique(layout.anti_base as int, layout.anti_stride as int, s1, t, s2, j);
                    }
                    assert(left_out(rows@, positions@, slots@, m, values));
                } else {
                    let m = omitted as int;
                    assert forall|k: int| 0 <= k < positions@.len() && k != m implies rows@[positions@[k] as int]@.to_set().contains(#[trigger] project_spec(slots@[k]@, assignment@)) by {
                        assert(included(k, Some(omitted), positions@.len() as int));
                        assert(added[positions@[k] as int]@.to_set().contains(project_spec(slots@[k]@, assignment@)));
                    }
                    assert(left_out(rows@, positions@, slots@, m, assignment@));
                }
            }
        }
    }
    proof {
        if owed {
            assert forall|p: int, x: Seq<i32>| 0 <= p < rows@.len() && #[trigger] rows@[p]@.to_set().contains(x) implies start_rows[p]@.to_set().contains(x)
                || exists|k: int| 0 <= k < positions@.len() && positions@[k] == p && x.len() == (#[trigger] slots@[k])@.len() by {
                if !start_rows[p]@.to_set().contains(x) {
                    let (j, k) = choose|j: int, k: int| 0 <= j < memberships@.len() && 0 <= k < n && positions@[k] == p
                        && x == #[trigger] project_spec(slots@[k]@, anti_values(layout, variable_count as nat, j));
                    assert(x.len() == slots@[k]@.len());
                }
            }
        }
    }
    Ok(())
}

/// The values of edge assignment number `a`.
pub open spec fn edge_values(layout: PlantingLayout, variable_count: nat, a: int) -> Seq<i32> {
    Seq::new(variable_count, |i: int| planted_value(layout.edge_base as int, layout.edge_stride as int, i, a) as i32)
}

/// The rows that the missing-key probes of the first `upto` accesses add to
/// `sets`, the edge markers counting from `start`: each partial lookup takes
/// the next edge assignment, and where the occurrences before it do not
/// already hold its key, their projections of that assignment.
pub open spec fn missing_key_sets(
    sets: Seq<Set<Seq<i32>>>,
    atoms: Seq<Atom>,
    accesses: Seq<AccessPattern>,
    positions: Seq<usize>,
    slots: Seq<Vec<usize>>,
    layout: PlantingLayout,
    variable_count: nat,
    start: int,
    upto: nat,
) -> Seq<Set<Seq<i32>>>
    decreases upto,
{
    if upto == 0 {
        sets
    } else {
        let i = upto - 1;
        let before = missing_key_sets(sets, atoms, accesses, positions, slots, layout, variable_count, start, (upto - 1) as nat);
        let values = edge_values(layout, variable_count, start + partial_count(accesses, atoms, (upto - 1) as nat));
        if accesses[i].partial_spec(atoms) && !prefix_has_key(positions, slots, values, i, accesses[i].key_columns@) {
            union_sets(before, projected_sets(positions, slots, sets.len(), values, None, i))
        } else {
            before
        }
    }
}

/// Reach every feasible partial lookup with a key for which its target input
/// has no candidate bucket. Some self-joins structurally guarantee a hit
/// because the prefix itself already inserted that key; those cases are
/// covered by the fanout step instead.
#[verifier::loop_isolation(false)]
fn plant_missing_keys(
    atoms: &Vec<Atom>,
    positions: &Vec<usize>,
    slots: &Vec<Vec<usize>>,
    accesses: &Vec<AccessPattern>,
    variables: &Vec<String>,
    relation_count: usize,
    limits: Limits,
    layout: PlantingLayout,
    rows: &mut Vec<RowSet>,
    active: &Vec<Option<Vec<i32>>>,
    edge_marker: &mut usize,
) -> (r: Result<(), GenerateError>)
    requires
        planting_inputs(atoms@, positions@, slots@, accesses@, variables@, relation_count as nat, layout),
        *old(edge_marker) + partial_count(accesses@, atoms@, accesses@.len()) <= layout.edge_marker_count,
        planting_ok(old(rows)@, active@, relation_count as nat, limits.distinct_rows as nat),
        layout.fresh_base >= layout.edge_base,
        layout.fresh_base == layout.edge_base + variables@.len() * layout.edge_stride + 1,
        layout.edge_stride == layout.edge_marker_count + 1,
        rows_below(old(rows)@, layout, *old(edge_marker) as int),
    ensures
        r matches Err(e) ==> planting_error(e),
        r is Ok ==> planting_ok(final(rows)@, active@, relation_count as nat, limits.distinct_rows as nat),
        r is Ok ==> grows(old(rows)@, final(rows)@),
        r is Ok ==> additions_avoid(old(rows)@, final(rows)@, layout.anti_base as int, layout.edge_base as int),
        r is Ok ==> *final(edge_marker) == *old(edge_marker) + partial_count(accesses@, atoms@, accesses@.len()),
        r is Ok ==> rows_below(final(rows)@, layout, *final(edge_marker) as int),
        r is Ok ==> additions_from(old(rows)@, final(rows)@, layout, *old(edge_marker) as int),
        r is Ok ==> forall|i: int| 0 <= i < accesses@.len() && (#[trigger] accesses@[i]).partial_spec(atoms@)
            && !slots_supply_key(positions@, slots@, i, accesses@[i].key_columns@) ==> exists|values: Seq<i32>|
            #[trigger] missing_key(final(rows)@, positions@, slots@, i, accesses@[i].key_columns@, values)
                && edge_keyed(values, slots@, i, accesses@[i].key_columns@, layout)
                && edge_marker_of(values[slots@[i]@[accesses@[i].key_columns@[0] as int] as int] as int, layout) < *final(edge_marker),
        partial_count(accesses@, atoms@, accesses@.len()) == 0 ==> r is Ok && final(rows)@ == old(rows)@,
        r is Ok ==> row_sets(final(rows)@) == missing_key_sets(row_sets(old(rows)@), atoms@, accesses@, positions@, slots@, layout,
            variables@.len() as nat, *old(edge_marker) as int, accesses@.len()),
        layout.fresh_base <= i32::MAX && (forall|p: int| 0 <= p < old(rows)@.len() ==> (#[trigger] old(rows)@[p])@.len()
            + partial_count(accesses@, atoms@, accesses@.len()) * positions@.len() <= limits.distinct_rows) ==> r is Ok
            && occurrence_widths(old(rows)@, final(rows)@, positions@, slots@)
            && forall|p: int| 0 <= p < final(rows)@.len() ==> (#[trigger] final(rows)@[p])@.len() <= old(rows)@[p]@.len()
                + partial_count(accesses@, atoms@, accesses@.len()) * positions@.len(),
{
    let ghost start_rows = rows@;
    let ghost start = *edge_marker;
    let ghost n = positions@.len() as int;
    let ghost owed = layout.fresh_base <= i32::MAX && (forall|p: int| 0 <= p < start_rows.len() ==> (#[trigger] start_rows[p])@.len()
            + partial_count(accesses@, atoms@, accesses@.len()) * positions@.len() <= limits.distinct_rows);
    let variable_count = variables.len();
    for i in 0..accesses.len()
        invariant
            owed ==> forall|p: int| 0 <= p < rows@.len() ==> (#[trigger] rows@[p])@.len() <= start_rows[p]@.len() + partial_count(accesses@, atoms@, i as nat) * n,
            owed ==> occurrence_widths(start_rows, rows@, positions@, slots@),
            partial_count(accesses@, atoms@, accesses@.len()) == 0 ==> rows@ == start_rows,
            row_sets(rows@) == missing_key_sets(row_sets(start_rows), atoms@, accesses@, positions@, slots@, layout, variables@.len() as nat,
                start as int, i as nat),
            row_sets(start_rows).len() == relation_count,
            planting_inputs(atoms@, positions@, slots@, accesses@, variables@, relation_count as nat, layout),
            variable_count == variables@.len(),
            start + partial_count(accesses@, atoms@, accesses@.len()) <= layout.edge_marker_count,
            *edge_marker == start + partial_count(accesses@, atoms@, i as nat),
            planting_ok(rows@, active@, relation_count as nat, limits.distinct_rows as nat),
            grows(start_rows, rows@),
            layout.fresh_base >= layout.edge_base,
            additions_avoid(start_rows, rows@, layout.anti_base as int, layout.edge_base as int),
            layout.fresh_base == layout.edge_base + variables@.len() * layout.edge_stride + 1,
            layout.edge_stride == layout.edge_marker_count + 1,
            rows_below(rows@, layout, *edge_marker as int),
            additions_from(start_rows, rows@, layout, start as int),
            forall|q: int| 0 <= q < i && (#[trigger] accesses@[q]).partial_spec(atoms@)
                && !slots_supply_key(positions@, slots@, q, accesses@[q].key_columns@) ==> exists|values: Seq<i32>|
                #[trigger] missing_key(rows@, positions@, slots@, q, accesses@[q].key_columns@, values)
                    && edge_keyed(values, slots@, q, accesses@[q].key_columns@, layout)
                    && edge_marker_of(values[slots@[q]@[accesses@[q].key_columns@[0] as int] as int] as int, layout) < *edge_marker,
    {
        let access = &accesses[i];
        proof {
            assert(access_spec(atoms@, i as int, accesses@[i as int]));
            crate::analysis::lemma_partial_monotone(accesses@, atoms@, (i + 1) as nat, accesses@.len());
        }
        if access.is_partial(atoms) {
            proof {
                if owed && variable_count > 0 {
                    let vc = variable_count as int;
                    let es = layout.edge_stride as int;
                    let a = *edge_marker as int;
                    assert((vc - 1) * es + a < vc * es + 1) by (nonlinear_arith) requires vc >= 1, 0 <= a < es;
                }
            }
            let assignment = planted_assignment(variable_count, layout.edge_base, layout.edge_stride, *edge_marker)?;
            proof {
                assert(assignment@ =~= edge_values(layout, variable_count as nat, *edge_marker as int));
            }
            *edge_marker += 1;
            let prefix = project_occurrences(positions, slots, relation_count, &assignment, None, access.occurrence);
            proof {
                lemma_projection_positive(prefix@, positions@, slots@, assignment@, None, access.occurrence as int, relation_count as nat);
                lemma_assignment_above(assignment@, layout.edge_base as int, layout.edge_stride as int, (*edge_marker - 1) as int, variable_count as int, layout.anti_base as int, layout.edge_base as int);
                lemma_projection_avoids(prefix@, positions@, slots@, assignment@, None, access.occurrence as int, relation_count as nat, layout.anti_base as int, layout.edge_base as int);
                let vars = atoms@[i as int].vars();
                let bound = crate::analysis::first_occurrences(crate::analysis::flat_vars(atoms@.take(i as int)));
                assert(atoms@[i as int].variables@.len() == atoms@[i as int].variables.len());
                crate::analysis::lemma_bound_columns_all(vars, bound, vars.len());
                assert(slots@[i as int]@.len() == vars.len());
            }
            let ghost a = (*edge_marker - 1) as int;
            let ghost before = rows@;
            let ghost cols = access.key_columns@;
            proof {
                lemma_edge_assignment_marked(assignment@, assignment@, layout, a);
                lemma_projection_marked(prefix@, positions@, slots@, assignment@, None, access.occurrence as int, relation_count as nat, layout, a, a + 1);
                assert(forall|c: int| 0 <= c < cols.len() ==> (#[trigger] cols[c]) < slots@[i as int]@.len());
                if prefix_has_key(positions@, slots@, assignment@, i as int, cols) {
                    lemma_prefix_key_slots(positions@, slots@, assignment@, i as int, cols, layout, a);
                }
            }
            if !prefix_guarantees_key(access.occurrence, &access.key_columns, positions, slots, relation_count, &assignment) {
                let ghost added = prefix@;
                proof {
                    if owed {
                        let pc = partial_count(accesses@, atoms@, i as nat) as int;
                        assert(partial_count(accesses@, atoms@, (i + 1) as nat) == pc + 1);
                        assert forall|p: int| 0 <= p < before.len() && p < added.len() implies (#[trigger] before[p])@.to_set().union(added[p]@.to_set()).len()
                            <= limits.distinct_rows by {
                            lemma_projection_len(added, positions@, slots@, assignment@, None, access.occurrence as int, p);
                            before[p].lemma_distinct();
                            vstd::seq_lib::seq_to_set_is_finite(before[p]@);
                            vstd::set_lib::lemma_len_union(before[p]@.to_set(), added[p]@.to_set());
                            let total = partial_count(accesses@, atoms@, accesses@.len()) as int;
                            assert((pc + 1) * n <= total * n) by (nonlinear_arith) requires pc + 1 <= total, n >= 0;
                            assert(pc * n + n == (pc + 1) * n) by (nonlinear_arith);
                        }
                    }
                }
                insert_planted(rows, active, prefix, relation_count, limits.distinct_rows)?;
                proof {
                    lemma_projection_sets(added, positions@, slots@, assignment@, None, i as int);
                    lemma_inserted_sets(before, added, rows@);
                    assert(row_sets(rows@) == missing_key_sets(row_sets(start_rows), atoms@, accesses@, positions@, slots@, layout,
                        variables@.len() as nat, start as int, (i + 1) as nat));
                }
                proof {
                    if owed {
                        let pc = partial_count(accesses@, atoms@, i as nat) as int;
                        assert forall|p: int| 0 <= p < rows@.len() implies (#[trigger] rows@[p])@.len() <= start_rows[p]@.len()
                            + partial_count(accesses@, atoms@, (i + 1) as nat) * n by {
                            lemma_projection_len(added, positions@, slots@, assignment@, None, access.occurrence as int, p);
                            before[p].lemma_distinct();
                            rows@[p].lemma_distinct();
                            vstd::seq_lib::seq_to_set_is_finite(before[p]@);
                            vstd::set_lib::lemma_len_union(before[p]@.to_set(), added[p]@.to_set());
                            vstd::set_lib::lemma_len_subset(rows@[p]@.to_set(), before[p]@.to_set().union(added[p]@.to_set()));
                            assert(pc * n + n == (pc + 1) * n) by (nonlinear_arith);
                        }
                        assert forall|p: int, x: Seq<i32>| 0 <= p < rows@.len() && #[trigger] rows@[p]@.to_set().contains(x) implies start_rows[p]@.to_set().contains(x)
                            || exists|k: int| 0 <= k < positions@.len() && positions@[k] == p && x.len() == (#[trigger] slots@[k])@.len() by {
                            if !before[p]@.to_set().contains(x) {
                                assert(added[p]@.to_set().contains(x));
                                let k = choose|k: int| 0 <= k < positions@.len() && included(k, None, access.occurrence as int) && positions@[k] == p
                                    && x == project_spec(#[trigger] slots@[k]@, assignment@);
                                assert(x.len() == slots@[k]@.len());
                            }
                        }
                    }
                    lemma_marked_insertion(start_rows, before, added, rows@, layout, start as int, a);
                    let pk = positions@[i as int] as int;
                    let key = key_of(slots@, assignment@, i as int, cols);
                    let s0 = slots@[i as int]@[cols[0] as int] as int;
                    lemma_edge_value(layout, variable_count as int, s0, a);
                    assert forall|j: int| 0 <= j < i implies rows@[positions@[j] as int]@.to_set().contains(#[trigger] project_spec(slots@[j]@, assignment@)) by {
                        assert(included(j, None, i as int));
                        assert(added[positions@[j] as int]@.to_set().contains(project_spec(slots@[j]@, assignment@)));
                    }
                    assert forall|x: Seq<i32>| #[trigger] rows@[pk]@.to_set().contains(x) implies !has_key(x, cols, key) by {
                        if has_key(x, cols, key) {
                            let c0 = cols[0] as int;
                            assert(x[c0] == key[0]);
                            if before[pk]@.to_set().contains(x) {
                                assert(markers_below(x, layout, a));
                                assert(in_edge_range(x[c0] as int, layout));
                            } else {
                                assert(added[pk]@.to_set().contains(x));
                                let j = choose|j: int| 0 <= j < positions@.len() && included(j, None, i as int) && positions@[j] == pk && x == project_spec(#[trigger] slots@[j]@, assignment@);
                                assert(prefix_has_key(positions@, slots@, assignment@, i as int, cols));
                            }
                        }
                    }
                    assert(missing_key(rows@, positions@, slots@, i as int, cols, assignment@));
                    assert forall|q: int| 0 <= q < i + 1 && (#[trigger] accesses@[q]).partial_spec(atoms@)
                        && !slots_supply_key(positions@, slots@, q, accesses@[q].key_columns@) implies exists|values: Seq<i32>|
                        #[trigger] missing_key(rows@, positions@, slots@, q, accesses@[q].key_columns@, values)
                            && edge_keyed(values, slots@, q, accesses@[q].key_columns@, layout)
                            && edge_marker_of(values[slots@[q]@[accesses@[q].key_columns@[0] as int] as int] as int, layout) < *edge_marker by {
                        if q < i {
                            let v = choose|values: Seq<i32>|
                                #[trigger] missing_key(before, positions@, slots@, q, accesses@[q].key_columns@, values)
                                    && edge_keyed(values, slots@, q, accesses@[q].key_columns@, layout)
                                    && edge_marker_of(values[slots@[q]@[accesses@[q].key_columns@[0] as int] as int] as int, layout) < a;
                            assert(additions_from(before, rows@, layout, a));
                            lemma_missing_key_survives(before, rows@, positions@, slots@, q, accesses@[q].key_columns@, v, layout, a);
                        } else {
                            assert(missing_key(rows@, positions@, slots@, q, accesses@[q].key_columns@, assignment@));
                        }
                    }
                }
            } else {
                proof {
                    assert(row_sets(rows@) == missing_key_sets(row_sets(start_rows), atoms@, accesses@, positions@, slots@, layout,
                        variables@.len() as nat, start as int, (i + 1) as nat));
                    lemma_rows_below_grows(rows@, layout, a, a + 1);
                    if owed {
                        let pc = partial_count(accesses@, atoms@, i as nat) as int;
                        assert(partial_count(accesses@, atoms@, (i + 1) as nat) == pc + 1);
                        assert(pc * n <= (pc + 1) * n) by (nonlinear_arith) requires n >= 0;
                    }
                }
            }
        } else {
            proof {
                assert(!accesses@[i as int].partial_spec(atoms@));
                assert(partial_count(accesses@, atoms@, (i + 1) as nat) == partial_count(accesses@, atoms@, i as nat));
            }
        }
    }
    Ok(())
}

/// The rows that the decoy for key column `j` of the composite-key lookup at
/// occurrence `q` adds to each of `len` inputs: the other occurrences'
/// projections of edge assignment `marker`, and in the input of `q` its own
/// projection with that column set to `fresh_value`.
pub open spec fn decoy_added(
    len: nat,
    positions: Seq<usize>,
    slots: Seq<Vec<usize>>,
    accesses: Seq<AccessPattern>,
    layout: PlantingLayout,
    variable_count: nat,
    marker: int,
    fresh_value: int,
    q: int,
    j: int,
) -> Seq<Set<Seq<i32>>> {
    let values = edge_values(layout, variable_count, marker);
    let projected = projected_sets(positions, slots, len, values, Some(q as usize), positions.len() as int);
    let decoy = project_spec(slots[q]@, values).update(accesses[q].key_columns@[j] as int, fresh_value as i32);
    projected.update(positions[q] as int, projected[positions[q] as int].insert(decoy))
}

/// The rows that the decoys of the first `upto` key columns of the lookup at
/// `q` add to `sets`, edge markers counting from `marker` and fresh values
/// from `fresh_value`.
pub open spec fn column_decoy_sets(
    sets: Seq<Set<Seq<i32>>>,
    positions: Seq<usize>,
    slots: Seq<Vec<usize>>,
    accesses: Seq<AccessPattern>,
    layout: PlantingLayout,
    variable_count: nat,
    marker: int,
    fresh_value: int,
    q: int,
    upto: nat,
) -> Seq<Set<Seq<i32>>>
    decreases upto,
{
    if upto == 0 {
        sets
    } else {
        let before = column_decoy_sets(sets, positions, slots, accesses, layout, variable_count, marker, fresh_value, q, (upto - 1) as nat);
        union_sets(before, decoy_added(sets.len(), positions, slots, accesses, layout, variable_count, marker + upto - 1, fresh_value + upto - 1,
            q, upto - 1))
    }
}

/// The rows that the decoys of the composite-key lookups among the first
/// `upto` accesses add to `sets`: one decoy per key column, each with the
/// next edge marker from `marker` and the next fresh value from
/// `fresh_value`.
pub open spec fn decoy_sets(
    sets: Seq<Set<Seq<i32>>>,
    positions: Seq<usize>,
    slots: Seq<Vec<usize>>,
    accesses: Seq<AccessPattern>,
    layout: PlantingLayout,
    variable_count: nat,
    marker: int,
    fresh_value: int,
    upto: nat,
) -> Seq<Set<Seq<i32>>>
    decreases upto,
{
    if upto == 0 {
        sets
    } else {
        let before = decoy_sets(sets, positions, slots, accesses, layout, variable_count, marker, fresh_value, (upto - 1) as nat);
        let q = upto - 1;
        let ct = composite_key_total(accesses, (upto - 1) as nat) as int;
        if accesses[q].key_columns@.len() >= 2 {
            column_decoy_sets(before, positions, slots, accesses, layout, variable_count, marker + ct, fresh_value + ct, q,
                accesses[q].key_columns@.len())
        } else {
            before
        }
    }
}

/// The row sets of a projection with one decoy added to input `relation`.
proof fn lemma_decoy_rows(
    before: Seq<RowSet>,
    added: Seq<RowSet>,
    positions: Seq<usize>,
    slots: Seq<Vec<usize>>,
    values: Seq<i32>,
    omitted: usize,
    relation: int,
    decoy: Seq<i32>,
)
    requires
        projection_of(before, positions, slots, values, Some(omitted), positions.len() as int),
        added.len() == before.len(),
        0 <= relation < before.len(),
        forall|p: int| 0 <= p < before.len() && p != relation ==> added[p] == before[p],
        added[relation]@.to_set() == before[relation]@.to_set().insert(decoy),
    ensures
        row_sets(added) == ({
            let projected = projected_sets(positions, slots, before.len(), values, Some(omitted), positions.len() as int);
            projected.update(relation, projected[relation].insert(decoy))
        }),
{
    lemma_projection_sets(before, positions, slots, values, Some(omitted), positions.len() as int);
    let projected = projected_sets(positions, slots, before.len(), values, Some(omitted), positions.len() as int);
    assert forall|p: int| 0 <= p < added.len() implies #[trigger] row_sets(added)[p] == projected.update(relation, projected[relation].insert(decoy))[p] by {
        assert(row_sets(before)[p] == projected[p]);
    }
    assert(row_sets(added) =~= projected.update(relation, projected[relation].insert(decoy)));
}

/// Every component of a composite key gets its own isolated near miss. All
/// other atoms are present, while the target row differs in exactly that
/// component, so a lowering that drops the component admits a false proof.
#[verifier::loop_isolation(false)]
#[verifier::spinoff_prover]
#[verifier::rlimit(100)]
fn plant_key_decoys(
    atoms: &Vec<Atom>,
    positions: &Vec<usize>,
    slots: &Vec<Vec<usize>>,
    accesses: &Vec<AccessPattern>,
    variables: &Vec<String>,
    relation_count: usize,
    limits: Limits,
    layout: PlantingLayout,
    rows: &mut Vec<RowSet>,
    active: &Vec<Option<Vec<i32>>>,
    edge_marker: &mut usize,
    fresh: &mut usize,
) -> (r: Result<(), GenerateError>)
    requires
        planting_inputs(atoms@, positions@, slots@, accesses@, variables@, relation_count as nat, layout),
        *old(edge_marker) + composite_key_total(accesses@, accesses@.len()) <= layout.edge_marker_count,
        *old(fresh) <= 0x8000_0000,
        planting_ok(old(rows)@, active@, relation_count as nat, limits.distinct_rows as nat),
        layout.fresh_base >= layout.edge_base,
        layout.fresh_base == layout.edge_base + variables@.len() * layout.edge_stride + 1,
        layout.edge_stride == layout.edge_marker_count + 1,
        rows_below(old(rows)@, layout, *old(edge_marker) as int),
    ensures
        r matches Err(e) ==> planting_error(e),
        r is Ok ==> planting_ok(final(rows)@, active@, relation_count as nat, limits.distinct_rows as nat),
        r is Ok ==> grows(old(rows)@, final(rows)@),
        r is Ok ==> additions_avoid(old(rows)@, final(rows)@, layout.anti_base as int, layout.edge_base as int),
        r is Ok ==> *final(edge_marker) == *old(edge_marker) + composite_key_total(accesses@, accesses@.len()),
        r is Ok ==> *final(fresh) <= 0x8000_0000,
        r is Ok ==> rows_below(final(rows)@, layout, *final(edge_marker) as int),
        r is Ok ==> additions_from(old(rows)@, final(rows)@, layout, *old(edge_marker) as int),
        r is Ok ==> forall|q: int, j: int| 0 <= q < accesses@.len() && 0 <= j < accesses@[q].key_columns@.len() && accesses@[q].key_columns@.len() >= 2
            ==> #[trigger] decoy_planted(final(rows)@, positions@, slots@, accesses@, layout, q, j, *final(edge_marker) as int),
        no_composite_keys(accesses@) ==> r is Ok && final(rows)@ == old(rows)@ && *final(fresh) == *old(fresh),
        r is Ok ==> *final(fresh) == *old(fresh) + composite_key_total(accesses@, accesses@.len()),
        r is Ok ==> row_sets(final(rows)@) == decoy_sets(row_sets(old(rows)@), positions@, slots@, accesses@, layout, variables@.len() as nat,
            *old(edge_marker) as int, layout.fresh_base + *old(fresh), accesses@.len()),
        composites_distinct(positions@, slots@, accesses@)
            && layout.fresh_base + *old(fresh) + composite_key_total(accesses@, accesses@.len()) <= i32::MAX
            && (forall|p: int| 0 <= p < old(rows)@.len() ==> (#[trigger] old(rows)@[p])@.len()
            + 2 * composite_key_total(accesses@, accesses@.len()) * positions@.len() <= limits.distinct_rows) ==> r is Ok
            && occurrence_widths(old(rows)@, final(rows)@, positions@, slots@)
            && *final(fresh) <= *old(fresh) + composite_key_total(accesses@, accesses@.len())
            && forall|p: int| 0 <= p < final(rows)@.len() ==> (#[trigger] final(rows)@[p])@.len() <= old(rows)@[p]@.len()
                + 2 * composite_key_total(accesses@, accesses@.len()) * positions@.len(),
{
    let ghost start_rows = rows@;
    let ghost start_fresh = *fresh;
    let ghost start = *edge_marker;
    let ghost n = positions@.len() as int;
    let ghost total = composite_key_total(accesses@, accesses@.len()) as int;
    let ghost owed = composites_distinct(positions@, slots@, accesses@) && layout.fresh_base + start_fresh + total <= i32::MAX
        && (forall|p: int| 0 <= p < start_rows.len() ==> (#[trigger] start_rows[p])@.len() + 2 * total * n <= limits.distinct_rows);
    let variable_count = variables.len();
    for i in 0..accesses.len()
        invariant
            owed ==> forall|p: int| 0 <= p < rows@.len() ==> (#[trigger] rows@[p])@.len() <= start_rows[p]@.len()
                + 2 * composite_key_total(accesses@, i as nat) * n,
            owed ==> occurrence_widths(start_rows, rows@, positions@, slots@),
            owed ==> *fresh <= start_fresh + composite_key_total(accesses@, i as nat),
            no_composite_keys(accesses@) ==> rows@ == start_rows && *fresh == start_fresh,
            *fresh == start_fresh + composite_key_total(accesses@, i as nat),
            row_sets(rows@) == decoy_sets(row_sets(start_rows), positions@, slots@, accesses@, layout, variable_count as nat, start as int,
                layout.fresh_base + start_fresh, i as nat),
            row_sets(start_rows).len() == relation_count,
            planting_inputs(atoms@, positions@, slots@, accesses@, variables@, relation_count as nat, layout),
            variable_count == variables@.len(),
            start + composite_key_total(accesses@, accesses@.len()) <= layout.edge_marker_count,
            *edge_marker == start + composite_key_total(accesses@, i as nat),
            *fresh <= 0x8000_0000,
            planting_ok(rows@, active@, relation_count as nat, limits.distinct_rows as nat),
            grows(start_rows, rows@),
            layout.fresh_base >= layout.edge_base,
            additions_avoid(start_rows, rows@, layout.anti_base as int, layout.edge_base as int),
            layout.fresh_base == layout.edge_base + variables@.len() * layout.edge_stride + 1,
            layout.edge_stride == layout.edge_marker_count + 1,
            rows_below(rows@, layout, *edge_marker as int),
            additions_from(start_rows, rows@, layout, start as int),
            forall|q: int, j: int| 0 <= q < i && 0 <= j < accesses@[q].key_columns@.len() && accesses@[q].key_columns@.len() >= 2
                ==> #[trigger] decoy_planted(rows@, positions@, slots@, accesses@, layout, q, j, *edge_marker as int),
    {
        let access = &accesses[i];
        let occurrence = access.occurrence;
        proof {
            assert(access_spec(atoms@, i as int, accesses@[i as int]));
            crate::analysis::lemma_composite_monotone(accesses@, (i + 1) as nat, accesses@.len());
            let vars = atoms@[i as int].vars();
            let bound = crate::analysis::first_occurrences(crate::analysis::flat_vars(atoms@.take(i as int)));
            assert(atoms@[i as int].variables@.len() == atoms@[i as int].variables.len());
            crate::analysis::lemma_bound_columns_all(vars, bound, vars.len());
            assert(slots@[i as int]@.len() == vars.len());
        }
        let ghost ct = composite_key_total(accesses@, i as nat) as int;
        if access.key_columns.len() >= 2 {
            let ghost marker_start = *edge_marker;
            proof {
                assert(composite_key_total(accesses@, (i + 1) as nat) == ct + access.key_columns@.len());
            }
            for j in 0..access.key_columns.len()
                invariant
                    owed ==> forall|p: int| 0 <= p < rows@.len() ==> (#[trigger] rows@[p])@.len() <= start_rows[p]@.len() + 2 * (ct + j) * n,
                    owed ==> occurrence_widths(start_rows, rows@, positions@, slots@),
                    owed ==> *fresh <= start_fresh + ct + j,
                    *fresh == start_fresh + ct + j,
                    marker_start == start + ct,
                    row_sets(rows@) == column_decoy_sets(decoy_sets(row_sets(start_rows), positions@, slots@, accesses@, layout, variable_count as nat,
                        start as int, layout.fresh_base + start_fresh, i as nat), positions@, slots@, accesses@, layout, variable_count as nat,
                        start + ct, layout.fresh_base + start_fresh + ct, i as int, j as nat),
                    row_sets(start_rows).len() == relation_count,
                    ct == composite_key_total(accesses@, i as nat),
                    ct + access.key_columns@.len() <= total,
                    planting_inputs(atoms@, positions@, slots@, accesses@, variables@, relation_count as nat, layout),
                    variable_count == variables@.len(),
                    access == &accesses@[i as int],
                    occurrence == i,
                    i < positions@.len(),
                    i < atoms@.len(),
                    forall|c: int| 0 <= c < access.key_columns@.len() ==> (#[trigger] access.key_columns@[c]) < slots@[i as int]@.len(),
                    marker_start + access.key_columns@.len() <= layout.edge_marker_count,
                    *edge_marker == marker_start + j,
                    *fresh <= 0x8000_0000,
                    planting_ok(rows@, active@, relation_count as nat, limits.distinct_rows as nat),
                    grows(start_rows, rows@),
                    layout.fresh_base >= layout.edge_base,
                    additions_avoid(start_rows, rows@, layout.anti_base as int, layout.edge_base as int),
                    layout.fresh_base == layout.edge_base + variables@.len() * layout.edge_stride + 1,
                    layout.edge_stride == layout.edge_marker_count + 1,
                    marker_start >= start,
                    rows_below(rows@, layout, *edge_marker as int),
                    additions_from(start_rows, rows@, layout, start as int),
                    access.key_columns@.len() >= 2,
                    forall|q: int, jj: int| 0 <= q < i && 0 <= jj < accesses@[q].key_columns@.len() && accesses@[q].key_columns@.len() >= 2
                        ==> #[trigger] decoy_planted(rows@, positions@, slots@, accesses@, layout, q, jj, *edge_marker as int),
                    forall|jj: int| 0 <= jj < j ==> #[trigger] decoy_planted(rows@, positions@, slots@, accesses@, layout, i as int, jj, *edge_marker as int),
            {
                let key_column = access.key_columns[j];
                proof {
                    if owed && variable_count > 0 {
                        let vc = variable_count as int;
                        let es = layout.edge_stride as int;
                        let a = *edge_marker as int;
                        assert((vc - 1) * es + a < vc * es + 1) by (nonlinear_arith) requires vc >= 1, 0 <= a < es;
                    }
                }
                let assignment = planted_assignment(variable_count, layout.edge_base, layout.edge_stride, *edge_marker)?;
                *edge_marker += 1;
                let mut projected = project_occurrences(positions, slots, relation_count, &assignment, Some(occurrence), positions.len());
                proof {
                    lemma_projection_positive(projected@, positions@, slots@, assignment@, Some(occurrence), positions@.len() as int, relation_count as nat);
                    lemma_assignment_above(assignment@, layout.edge_base as int, layout.edge_stride as int, (*edge_marker - 1) as int, variable_count as int, layout.anti_base as int, layout.edge_base as int);
                    lemma_projection_avoids(projected@, positions@, slots@, assignment@, Some(occurrence), positions@.len() as int, relation_count as nat, layout.anti_base as int, layout.edge_base as int);
                }
                let relation = positions[occurrence];
                let correct = project_atom(&slots[occurrence], &assignment);
                proof {
                    if owed && projected@[relation as int]@.to_set().contains(correct@) {
                        let m = i as int;
                        let k = choose|k: int| 0 <= k < positions@.len() && included(k, Some(occurrence), positions@.len() as int) && positions@[k] == relation
                            && correct@ == project_spec(#[trigger] slots@[k]@, assignment@);
                        assert(correct@.len() == slots@[m]@.len());
                        assert(correct@.len() == slots@[k]@.len());
                        assert(slots@[k]@ =~= slots@[m]@) by {
                            assert forall|c: int| 0 <= c < slots@[k]@.len() implies slots@[k]@[c] == slots@[m]@[c] by {
                                let x = slots@[k]@[c] as int;
                                let y = slots@[m]@[c] as int;
                                assert(x < variable_count && y < variable_count);
                                assert(correct@[c] == assignment@[x]);
                                assert(correct@[c] == assignment@[y]);
                                lemma_planted_index_unique(layout.edge_base as int, layout.edge_stride as int, x, y, (*edge_marker - 1) as int);
                            }
                        }
                        assert(accesses@[m].key_columns@.len() >= 2);
                        assert(false);
                    }
                }
                if projected[relation].contains(&correct) {
                    assert(occurrence < atoms.len());
                    return Err(GenerateError::IndistinguishableAccess {
                        occurrence: occurrence + 1,
                        relation: crate::model::clone_string(&atoms[occurrence].relation),
                    });
                }
                let value = layout.fresh_value(*fresh)?;
                *fresh += 1;
                let mut decoy = correct;
                decoy.set(key_column, value);
                proof {
                    assert forall|c: int| 0 <= c < decoy@.len() implies #[trigger] decoy@[c] > 0 by {
                        if c != key_column {
                            assert(decoy@[c] == assignment@[slots@[i as int]@[c] as int]);
                        }
                    }
                    assert forall|c: int| 0 <= c < decoy@.len() implies #[trigger] decoy@[c] < layout.anti_base || decoy@[c] >= layout.edge_base by {
                        if c != key_column {
                            assert(decoy@[c] == assignment@[slots@[i as int]@[c] as int]);
                        }
                    }
                }
                let ghost a = (*edge_marker - 1) as int;
                proof {
                    lemma_edge_assignment_marked(assignment@, assignment@, layout, a);
                    lemma_projection_marked(projected@, positions@, slots@, assignment@, Some(occurrence), positions@.len() as int, relation_count as nat, layout, a, a + 1);
                    assert forall|c: int| 0 <= c < decoy@.len() && in_edge_range(#[trigger] decoy@[c] as int, layout) implies edge_marker_of(decoy@[c] as int, layout) == a by {
                        if c != key_column {
                            assert(decoy@[c] == assignment@[slots@[i as int]@[c] as int]);
                            lemma_edge_value(layout, variable_count as int, slots@[i as int]@[c] as int, a);
                        }
                    }
                }
                let ghost before = projected@;
                let mut set = RowSet::new();
                std::mem::swap(&mut set, &mut projected[relation]);
                set.insert(decoy);
                std::mem::swap(&mut set, &mut projected[relation]);
                proof {
                    assert forall|p: int| 0 <= p < projected@.len() implies (#[trigger] projected@[p]).wf() by {
                        if p != relation {
                            assert(projected@[p] == before[p]);
                        }
                    }
                    assert forall|p: int| 0 <= p < projected@.len() implies positive_set(#[trigger] projected@[p]@.to_set()) by {
                        if p != relation {
                            assert(projected@[p] == before[p]);
                        } else {
                            assert(positive_set(before[p]@.to_set()));
                        }
                    }
                    assert forall|p: int, x: Seq<i32>| 0 <= p < projected@.len() && #[trigger] projected@[p]@.to_set().contains(x)
                        implies avoids_range(x, layout.anti_base as int, layout.edge_base as int) by {
                        if p != relation {
                            assert(projected@[p] == before[p]);
                        } else if x != decoy@ {
                            assert(before[p]@.to_set().contains(x));
                        }
                    }
                }
                let ghost rows_before = rows@;
                let ghost added = projected@;
                proof {
                    if owed {
                        assert forall|p: int| 0 <= p < rows_before.len() && p < added.len() implies (#[trigger] rows_before[p])@.to_set().union(added[p]@.to_set()).len()
                            <= limits.distinct_rows by {
                            lemma_added_len(before, added, positions@, slots@, assignment@, occurrence, relation as int, decoy@, p);
                            rows_before[p].lemma_distinct();
                            vstd::seq_lib::seq_to_set_is_finite(rows_before[p]@);
                            vstd::set_lib::lemma_len_union(rows_before[p]@.to_set(), added[p]@.to_set());
                            assert(2 * (ct + j + 1) * n <= 2 * total * n) by (nonlinear_arith) requires ct + j + 1 <= total, n >= 0;
                            assert(2 * (ct + j) * n + 2 * n == 2 * (ct + j + 1) * n) by (nonlinear_arith);
                        }
                    }
                }
                insert_planted(rows, active, projected, relation_count, limits.distinct_rows)?;
                proof {
                    assert(assignment@ =~= edge_values(layout, variable_count as nat, a));
                    assert(forall|p: int| 0 <= p < before.len() && p != relation ==> added[p] == before[p]);
                    lemma_decoy_rows(before, added, positions@, slots@, assignment@, occurrence, relation as int, decoy@);
                    lemma_inserted_sets(rows_before, added, rows@);
                    assert(row_sets(rows@) == column_decoy_sets(decoy_sets(row_sets(start_rows), positions@, slots@, accesses@, layout,
                        variable_count as nat, start as int, layout.fresh_base + start_fresh, i as nat), positions@, slots@, accesses@, layout,
                        variable_count as nat, start + ct, layout.fresh_base + start_fresh + ct, i as int, (j + 1) as nat));
                }
                proof {
                    if owed {
                        assert forall|p: int| 0 <= p < rows@.len() implies (#[trigger] rows@[p])@.len() <= start_rows[p]@.len() + 2 * (ct + j + 1) * n by {
                            lemma_added_len(before, added, positions@, slots@, assignment@, occurrence, relation as int, decoy@, p);
                            rows_before[p].lemma_distinct();
                            rows@[p].lemma_distinct();
                            vstd::seq_lib::seq_to_set_is_finite(rows_before[p]@);
                            vstd::set_lib::lemma_len_union(rows_before[p]@.to_set(), added[p]@.to_set());
                            vstd::set_lib::lemma_len_subset(rows@[p]@.to_set(), rows_before[p]@.to_set().union(added[p]@.to_set()));
                            assert(2 * (ct + j) * n + 2 * n == 2 * (ct + j + 1) * n) by (nonlinear_arith);
                        }
                        assert forall|p: int, x: Seq<i32>| 0 <= p < rows@.len() && #[trigger] rows@[p]@.to_set().contains(x) implies start_rows[p]@.to_set().contains(x)
                            || exists|k: int| 0 <= k < positions@.len() && positions@[k] == p && x.len() == (#[trigger] slots@[k])@.len() by {
                            if !rows_before[p]@.to_set().contains(x) {
                                assert(added[p]@.to_set().contains(x));
                                if p == relation && x == decoy@ {
                                    assert(x.len() == slots@[i as int]@.len());
                                } else {
                                    if p != relation {
                                        assert(added[p] == before[p]);
                                    }
                                    assert(before[p]@.to_set().contains(x));
                                    let k = choose|k: int| 0 <= k < positions@.len() && included(k, Some(occurrence), positions@.len() as int) && positions@[k] == p
                                        && x == project_spec(#[trigger] slots@[k]@, assignment@);
                                    assert(x.len() == slots@[k]@.len());
                                }
                            }
                        }
                    }
                }
                proof {
                    assert forall|p: int, x: Seq<i32>| 0 <= p < added.len() && #[trigger] added[p]@.to_set().contains(x)
                        implies markers_below(x, layout, a + 1) && markers_from(x, layout, a) by {
                        if p != relation {
                            assert(added[p] == before[p]);
                        } else if x != decoy@ {
                            assert(before[p]@.to_set().contains(x));
                        }
                    }
                    assert(grows(rows_before, rows_before));
                    lemma_marked_insertion(rows_before, rows_before, added, rows@, layout, a, a);
                    lemma_marked_insertion(start_rows, rows_before, added, rows@, layout, start as int, a);
                    let pk = relation as int;
                    let kc = key_column as int;
                    let correct_row = project_spec(slots@[i as int]@, assignment@);
                    let s0 = slots@[i as int]@[0] as int;
                    lemma_edge_value(layout, variable_count as int, s0, a);
                    assert forall|q: int| 0 <= q < positions@.len() && q != i implies rows@[positions@[q] as int]@.to_set().contains(#[trigger] project_spec(slots@[q]@, assignment@)) by {
                        assert(included(q, Some(occurrence), positions@.len() as int));
                        assert(before[positions@[q] as int]@.to_set().contains(project_spec(slots@[q]@, assignment@)));
                        assert(added[positions@[q] as int]@.to_set().contains(project_spec(slots@[q]@, assignment@)));
                    }
                    assert(correct@ == correct_row);
                    assert(decoy@ == correct_row.update(kc, value));
                    assert(added[pk]@.to_set().contains(decoy@));
                    assert(rows@[pk]@.to_set().contains(correct_row.update(kc, value)));
                    if rows@[pk]@.to_set().contains(correct_row) {
                        if rows_before[pk]@.to_set().contains(correct_row) {
                            assert(markers_below(correct_row, layout, a));
                            assert(correct_row[0] == assignment@[s0]);
                        } else {
                            assert(added[pk]@.to_set().contains(correct_row));
                            if correct_row != decoy@ {
                                assert(before[pk]@.to_set().contains(correct_row));
                            } else {
                                assert(correct_row[kc] == assignment@[slots@[i as int]@[kc] as int]);
                                lemma_edge_value(layout, variable_count as int, slots@[i as int]@[kc] as int, a);
                            }
                        }
                    }
                    assert(near_miss(rows@, positions@, slots@, i as int, kc, assignment@));
                    assert(access.key_columns@[j as int] == key_column);
                    assert(decoy_planted(rows@, positions@, slots@, accesses@, layout, i as int, j as int, a + 1));
                    assert forall|q: int, jj: int| 0 <= q < i && 0 <= jj < accesses@[q].key_columns@.len() && accesses@[q].key_columns@.len() >= 2
                        implies #[trigger] decoy_planted(rows@, positions@, slots@, accesses@, layout, q, jj, a + 1) by {
                        lemma_decoy_survives(rows_before, rows@, positions@, slots@, accesses@, layout, q, jj, a);
                    }
                    assert forall|jj: int| 0 <= jj < j + 1 implies #[trigger] decoy_planted(rows@, positions@, slots@, accesses@, layout, i as int, jj, a + 1) by {
                        if jj < j {
                            lemma_decoy_survives(rows_before, rows@, positions@, slots@, accesses@, layout, i as int, jj, a);
                        }
                    }
                }
            }
        } else {
            proof {
                assert(composite_key_total(accesses@, (i + 1) as nat) == ct);
            }
        }
    }
    Ok(())
}

/// A proper-key index must enumerate more than one complement. The two
/// assignments agree on the entire prefix and differ only in variables that
/// Two complete proofs whose assignments agree on every variable in
/// `bound` and differ on every other.
pub open spec fn complement_pair(
    rows: Seq<RowSet>,
    positions: Seq<usize>,
    slots: Seq<Vec<usize>>,
    names: Seq<Seq<char>>,
    bound: Seq<Seq<char>>,
    first: Seq<i32>,
    second: Seq<i32>,
) -> bool {
    &&& witnessed(rows, positions, slots, first)
    &&& witnessed(rows, positions, slots, second)
    &&& first.len() == names.len()
    &&& second.len() == names.len()
    &&& forall|i: int| 0 <= i < names.len() && bound.contains(#[trigger] names[i]) ==> first[i] == second[i]
    &&& forall|i: int| 0 <= i < names.len() && !bound.contains(#[trigger] names[i]) ==> first[i] != second[i]
}

/// A proof witnessed in some rows stays witnessed when the rows grow.
proof fn lemma_witnessed_grows(before: Seq<RowSet>, after: Seq<RowSet>, positions: Seq<usize>, slots: Seq<Vec<usize>>, values: Seq<i32>)
    requires
        grows(before, after),
        witnessed(before, positions, slots, values),
        forall|k: int| 0 <= k < positions.len() ==> #[trigger] positions[k] < before.len(),
    ensures
        witnessed(after, positions, slots, values),
{
    assert forall|k: int| 0 <= k < positions.len() implies after[positions[k] as int]@.to_set().contains(#[trigger] project_spec(slots[k]@, values)) by {
        assert(before[positions[k] as int]@.to_set().subset_of(after[positions[k] as int]@.to_set()));
    }
}

/// How many of the first `upto` variables `bound` leaves free.
pub open spec fn free_count(names: Seq<Seq<char>>, bound: Seq<Seq<char>>, upto: int) -> nat
    decreases upto,
{
    if upto <= 0 {
        0
    } else {
        free_count(names, bound, upto - 1) + if bound.contains(names[upto - 1]) {
            0nat
        } else {
            1nat
        }
    }
}

/// The second proof of a partial lookup: the first proof's value on each
/// variable that `bound` holds, and the next fresh value, in variable order,
/// on each other one.
pub open spec fn complement_values(first: Seq<i32>, names: Seq<Seq<char>>, bound: Seq<Seq<char>>, fresh_base: int, fresh: int) -> Seq<i32> {
    Seq::new(
        first.len(),
        |x: int|
            if bound.contains(names[x]) {
                first[x]
            } else {
                (fresh_base + fresh + free_count(names, bound, x)) as i32
            },
    )
}

/// The fresh values that the second proofs of the partial lookups among the
/// first `upto` accesses draw.
pub open spec fn fresh_drawn(accesses: Seq<AccessPattern>, atoms: Seq<Atom>, names: Seq<Seq<char>>, upto: nat) -> nat
    decreases upto,
{
    if upto == 0 {
        0
    } else {
        fresh_drawn(accesses, atoms, names, (upto - 1) as nat) + if accesses[upto - 1].partial_spec(atoms) {
            free_count(names, names_view(accesses[upto - 1].bound_variables@), names.len() as int)
        } else {
            0nat
        }
    }
}

/// The rows that the complement pairs of the first `upto` accesses add to
/// `sets`, edge markers counting from `start` and fresh values from `fresh`:
/// each partial lookup takes the next edge assignment and its second proof,
/// and every occurrence's projections of both.
pub open spec fn complement_sets(
    sets: Seq<Set<Seq<i32>>>,
    atoms: Seq<Atom>,
    accesses: Seq<AccessPattern>,
    positions: Seq<usize>,
    slots: Seq<Vec<usize>>,
    names: Seq<Seq<char>>,
    layout: PlantingLayout,
    start: int,
    fresh: int,
    upto: nat,
) -> Seq<Set<Seq<i32>>>
    decreases upto,
{
    if upto == 0 {
        sets
    } else {
        let i = upto - 1;
        let before = complement_sets(sets, atoms, accesses, positions, slots, names, layout, start, fresh, (upto - 1) as nat);
        if accesses[i].partial_spec(atoms) {
            let first = edge_values(layout, names.len(), start + partial_count(accesses, atoms, (upto - 1) as nat));
            let second = complement_values(first, names, names_view(accesses[i].bound_variables@), layout.fresh_base as int,
                fresh + fresh_drawn(accesses, atoms, names, (upto - 1) as nat));
            let n = positions.len() as int;
            union_sets(before, union_sets(projected_sets(positions, slots, sets.len(), first, None, n),
                projected_sets(positions, slots, sets.len(), second, None, n)))
        } else {
            before
        }
    }
}

/// Gives each partial lookup a second complete proof beside the first: it
/// agrees with the first on the variables that the lookup's key binds and
/// takes fresh values on those that are not yet bound, so both candidates
/// survive to complete proofs.
#[verifier::loop_isolation(false)]
#[verifier::spinoff_prover]
#[verifier::rlimit(50)]
fn plant_second_complements(
    atoms: &Vec<Atom>,
    positions: &Vec<usize>,
    slots: &Vec<Vec<usize>>,
    accesses: &Vec<AccessPattern>,
    variables: &Vec<String>,
    relation_count: usize,
    limits: Limits,
    layout: PlantingLayout,
    rows: &mut Vec<RowSet>,
    active: &Vec<Option<Vec<i32>>>,
    edge_marker: &mut usize,
    fresh: &mut usize,
) -> (r: Result<(), GenerateError>)
    requires
        planting_inputs(atoms@, positions@, slots@, accesses@, variables@, relation_count as nat, layout),
        *old(edge_marker) + partial_count(accesses@, atoms@, accesses@.len()) <= layout.edge_marker_count,
        *old(fresh) <= 0x8000_0000,
        planting_ok(old(rows)@, active@, relation_count as nat, limits.distinct_rows as nat),
        layout.fresh_base >= layout.edge_base,
        layout.fresh_base == layout.edge_base + variables@.len() * layout.edge_stride + 1,
        layout.edge_stride == layout.edge_marker_count + 1,
        rows_below(old(rows)@, layout, *old(edge_marker) as int),
    ensures
        r matches Err(e) ==> planting_error(e),
        r is Ok ==> planting_ok(final(rows)@, active@, relation_count as nat, limits.distinct_rows as nat),
        r is Ok ==> grows(old(rows)@, final(rows)@),
        r is Ok ==> additions_avoid(old(rows)@, final(rows)@, layout.anti_base as int, layout.edge_base as int),
        r is Ok ==> *final(edge_marker) == *old(edge_marker) + partial_count(accesses@, atoms@, accesses@.len()),
        r is Ok ==> *final(fresh) <= 0x8000_0000,
        r is Ok ==> forall|i: int| 0 <= i < accesses@.len() && (#[trigger] accesses@[i]).partial_spec(atoms@) ==> exists|first: Seq<i32>, second: Seq<i32>|
            #[trigger] complement_pair(final(rows)@, positions@, slots@, names_view(variables@), names_view(accesses@[i].bound_variables@), first, second),
        r is Ok ==> rows_below(final(rows)@, layout, *final(edge_marker) as int),
        r is Ok ==> additions_from(old(rows)@, final(rows)@, layout, *old(edge_marker) as int),
        partial_count(accesses@, atoms@, accesses@.len()) == 0 ==> r is Ok && final(rows)@ == old(rows)@,
        r is Ok ==> row_sets(final(rows)@) == complement_sets(row_sets(old(rows)@), atoms@, accesses@, positions@, slots@, names_view(variables@),
            layout, *old(edge_marker) as int, *old(fresh) as int, accesses@.len()),
        r is Ok ==> *final(fresh) == *old(fresh) + fresh_drawn(accesses@, atoms@, names_view(variables@), accesses@.len()),
        layout.fresh_base + *old(fresh) + partial_count(accesses@, atoms@, accesses@.len()) * variables@.len() <= i32::MAX
            && (forall|p: int| 0 <= p < old(rows)@.len() ==> (#[trigger] old(rows)@[p])@.len()
            + 2 * partial_count(accesses@, atoms@, accesses@.len()) * positions@.len() <= limits.distinct_rows) ==> r is Ok
            && occurrence_widths(old(rows)@, final(rows)@, positions@, slots@)
            && *final(fresh) <= *old(fresh) + partial_count(accesses@, atoms@, accesses@.len()) * variables@.len()
            && forall|p: int| 0 <= p < final(rows)@.len() ==> (#[trigger] final(rows)@[p])@.len() <= old(rows)@[p]@.len()
                + 2 * partial_count(accesses@, atoms@, accesses@.len()) * positions@.len(),
{
    let ghost start_rows = rows@;
    let ghost start_fresh = *fresh;
    let ghost start = *edge_marker;
    let ghost names = names_view(variables@);
    let ghost n = positions@.len() as int;
    let ghost total = partial_count(accesses@, atoms@, accesses@.len()) as int;
    let ghost owed = layout.fresh_base + start_fresh + total * variables@.len() <= i32::MAX
        && (forall|p: int| 0 <= p < start_rows.len() ==> (#[trigger] start_rows[p])@.len() + 2 * total * n <= limits.distinct_rows);
    let variable_count = variables.len();
    for i in 0..accesses.len()
        invariant
            owed ==> forall|p: int| 0 <= p < rows@.len() ==> (#[trigger] rows@[p])@.len() <= start_rows[p]@.len()
                + 2 * partial_count(accesses@, atoms@, i as nat) * n,
            owed ==> occurrence_widths(start_rows, rows@, positions@, slots@),
            owed ==> *fresh <= start_fresh + partial_count(accesses@, atoms@, i as nat) * variable_count,
            partial_count(accesses@, atoms@, accesses@.len()) == 0 ==> rows@ == start_rows,
            row_sets(rows@) == complement_sets(row_sets(start_rows), atoms@, accesses@, positions@, slots@, names, layout, start as int,
                start_fresh as int, i as nat),
            *fresh == start_fresh + fresh_drawn(accesses@, atoms@, names, i as nat),
            row_sets(start_rows).len() == relation_count,
            planting_inputs(atoms@, positions@, slots@, accesses@, variables@, relation_count as nat, layout),
            variable_count == variables@.len(),
            names == names_view(variables@),
            start + partial_count(accesses@, atoms@, accesses@.len()) <= layout.edge_marker_count,
            *edge_marker == start + partial_count(accesses@, atoms@, i as nat),
            *fresh <= 0x8000_0000,
            planting_ok(rows@, active@, relation_count as nat, limits.distinct_rows as nat),
            grows(start_rows, rows@),
            layout.fresh_base >= layout.edge_base,
            layout.fresh_base == layout.edge_base + variables@.len() * layout.edge_stride + 1,
            layout.edge_stride == layout.edge_marker_count + 1,
            additions_avoid(start_rows, rows@, layout.anti_base as int, layout.edge_base as int),
            forall|j: int| 0 <= j < i && (#[trigger] accesses@[j]).partial_spec(atoms@) ==> exists|first: Seq<i32>, second: Seq<i32>|
                #[trigger] complement_pair(rows@, positions@, slots@, names, names_view(accesses@[j].bound_variables@), first, second),
            rows_below(rows@, layout, *edge_marker as int),
            additions_from(start_rows, rows@, layout, start as int),
    {
        let access = &accesses[i];
        proof {
            assert(access_spec(atoms@, i as int, accesses@[i as int]));
            crate::analysis::lemma_partial_monotone(accesses@, atoms@, (i + 1) as nat, accesses@.len());
        }
        let ghost pc = partial_count(accesses@, atoms@, i as nat) as int;
        let ghost fresh_at = *fresh;
        if access.is_partial(atoms) {
            proof {
                assert(partial_count(accesses@, atoms@, (i + 1) as nat) == pc + 1);
                if owed {
                    let vc = variable_count as int;
                    let es = layout.edge_stride as int;
                    let a = *edge_marker as int;
                    if vc > 0 {
                        assert((vc - 1) * es + a < vc * es + 1) by (nonlinear_arith) requires vc >= 1, 0 <= a < es;
                    }
                    assert((pc + 1) * vc <= total * vc) by (nonlinear_arith) requires pc + 1 <= total, vc >= 0;
                    assert(pc * vc + vc == (pc + 1) * vc) by (nonlinear_arith);
                }
            }
            let first = planted_assignment(variable_count, layout.edge_base, layout.edge_stride, *edge_marker)?;
            proof {
                assert(first@ =~= edge_values(layout, variable_count as nat, *edge_marker as int));
            }
            *edge_marker += 1;
            let mut second = copy_values(&first);
            let ghost bound = names_view(access.bound_variables@);
            proof {
                lemma_assignment_above(first@, layout.edge_base as int, layout.edge_stride as int, (*edge_marker - 1) as int, variable_count as int, layout.anti_base as int, layout.edge_base as int);
                lemma_assignment_below(first@, layout.edge_base as int, layout.edge_stride as int, (*edge_marker - 1) as int, variable_count as int, layout.fresh_base as int, 0x1_0000_0000);
            }
            for v in 0..variable_count
                invariant
                    planting_inputs(atoms@, positions@, slots@, accesses@, variables@, relation_count as nat, layout),
                    variable_count == variables@.len(),
                    names == names_view(variables@),
                    bound == names_view(access.bound_variables@),
                    second@.len() == variable_count,
                    first@.len() == variable_count,
                    positive_values(second@),
                    avoids_range(second@, layout.anti_base as int, layout.edge_base as int),
                    layout.fresh_base >= layout.edge_base,
                    *fresh <= 0x8000_0000,
                    forall|x: int| 0 <= x < variable_count ==> #[trigger] first@[x] < layout.fresh_base,
                    forall|x: int| 0 <= x < variable_count && bound.contains(#[trigger] names[x]) ==> first@[x] == second@[x],
                    forall|x: int| 0 <= x < v && !bound.contains(#[trigger] names[x]) ==> second@[x] >= layout.fresh_base,
                    forall|x: int| v <= x < variable_count ==> #[trigger] second@[x] == first@[x],
                    *fresh <= fresh_at + v,
                    *fresh == fresh_at + free_count(names, bound, v as int),
                    forall|x: int| 0 <= x < v && !bound.contains(#[trigger] names[x]) ==> second@[x] == layout.fresh_base + fresh_at + free_count(names, bound, x),
            {
                proof {
                    assert(names[v as int] == variables@[v as int]@);
                }
                if !crate::analysis::contains_name(&access.bound_variables, &variables[v]) {
                    let value = layout.fresh_value(*fresh)?;
                    *fresh += 1;
                    second.set(v, value);
                }
                proof {
                    assert(names[v as int] == variables@[v as int]@);
                }
            }
            proof {
                assert(second@ =~= complement_values(first@, names, bound, layout.fresh_base as int, fresh_at as int));
                assert(names.len() == variable_count);
                assert forall|x: int| 0 <= x < variable_count && !bound.contains(#[trigger] names[x]) implies first@[x] != second@[x] by {
                    assert(first@[x] < layout.fresh_base);
                }
                assert forall|x: int| 0 <= x < variable_count implies #[trigger] second@[x] == first@[x] || second@[x] >= layout.fresh_base by {
                    if !bound.contains(names[x]) {
                        assert(second@[x] >= layout.fresh_base);
                    }
                }
                let a = (*edge_marker - 1) as int;
                lemma_edge_assignment_marked(first@, first@, layout, a);
                lemma_edge_assignment_marked(second@, first@, layout, a);
            }
            let first_rows = project_occurrences(positions, slots, relation_count, &first, None, positions.len());
            let second_rows = project_occurrences(positions, slots, relation_count, &second, None, positions.len());
            proof {
                lemma_projection_positive(first_rows@, positions@, slots@, first@, None, positions@.len() as int, relation_count as nat);
                lemma_projection_positive(second_rows@, positions@, slots@, second@, None, positions@.len() as int, relation_count as nat);
                lemma_projection_avoids(first_rows@, positions@, slots@, first@, None, positions@.len() as int, relation_count as nat, layout.anti_base as int, layout.edge_base as int);
                lemma_projection_avoids(second_rows@, positions@, slots@, second@, None, positions@.len() as int, relation_count as nat, layout.anti_base as int, layout.edge_base as int);
            }
            proof {
                let a = (*edge_marker - 1) as int;
                lemma_projection_marked(first_rows@, positions@, slots@, first@, None, positions@.len() as int, relation_count as nat, layout, a, a + 1);
                lemma_projection_marked(second_rows@, positions@, slots@, second@, None, positions@.len() as int, relation_count as nat, layout, a, a + 1);
            }
            let combined = merge_projected(first_rows, second_rows);
            proof {
                assert forall|p: int| 0 <= p < combined@.len() implies positive_set(#[trigger] combined@[p]@.to_set()) by {
                    assert(positive_set(first_rows@[p]@.to_set()));
                    assert(positive_set(second_rows@[p]@.to_set()));
                }
            }
            proof {
                assert forall|p: int, x: Seq<i32>| 0 <= p < combined@.len() && #[trigger] combined@[p]@.to_set().contains(x)
                    implies avoids_range(x, layout.anti_base as int, layout.edge_base as int) by {
                    if !first_rows@[p]@.to_set().contains(x) {
                        assert(second_rows@[p]@.to_set().contains(x));
                    }
                }
            }
            let ghost before = rows@;
            let ghost added = combined@;
            proof {
                if owed {
                    assert forall|p: int| 0 <= p < before.len() && p < added.len() implies (#[trigger] before[p])@.to_set().union(added[p]@.to_set()).len()
                        <= limits.distinct_rows by {
                        lemma_projection_len(first_rows@, positions@, slots@, first@, None, n, p);
                        lemma_projection_len(second_rows@, positions@, slots@, second@, None, n, p);
                        vstd::set_lib::lemma_len_union(first_rows@[p]@.to_set(), second_rows@[p]@.to_set());
                        vstd::set_lib::lemma_set_union_finite_iff(first_rows@[p]@.to_set(), second_rows@[p]@.to_set());
                        before[p].lemma_distinct();
                        vstd::seq_lib::seq_to_set_is_finite(before[p]@);
                        vstd::set_lib::lemma_len_union(before[p]@.to_set(), added[p]@.to_set());
                        assert(2 * (pc + 1) * n <= 2 * total * n) by (nonlinear_arith) requires pc + 1 <= total, n >= 0;
                        assert(2 * pc * n + 2 * n == 2 * (pc + 1) * n) by (nonlinear_arith);
                    }
                }
            }
            insert_planted(rows, active, combined, relation_count, limits.distinct_rows)?;
            proof {
                lemma_projection_sets(first_rows@, positions@, slots@, first@, None, n);
                lemma_projection_sets(second_rows@, positions@, slots@, second@, None, n);
                assert(row_sets(added) =~= union_sets(row_sets(first_rows@), row_sets(second_rows@))) by {
                    assert forall|p: int| 0 <= p < added.len() implies #[trigger] row_sets(added)[p] == union_sets(row_sets(first_rows@), row_sets(second_rows@))[p] by {
                        assert(added[p]@.to_set() == first_rows@[p]@.to_set().union(second_rows@[p]@.to_set()));
                    }
                }
                lemma_inserted_sets(before, added, rows@);
                assert(row_sets(rows@) == complement_sets(row_sets(start_rows), atoms@, accesses@, positions@, slots@, names, layout, start as int,
                    start_fresh as int, (i + 1) as nat));
            }
            proof {
                if owed {
                    assert forall|p: int| 0 <= p < rows@.len() implies (#[trigger] rows@[p])@.len() <= start_rows[p]@.len() + 2 * (pc + 1) * n by {
                        lemma_projection_len(first_rows@, positions@, slots@, first@, None, n, p);
                        lemma_projection_len(second_rows@, positions@, slots@, second@, None, n, p);
                        vstd::set_lib::lemma_len_union(first_rows@[p]@.to_set(), second_rows@[p]@.to_set());
                        vstd::set_lib::lemma_set_union_finite_iff(first_rows@[p]@.to_set(), second_rows@[p]@.to_set());
                        before[p].lemma_distinct();
                        rows@[p].lemma_distinct();
                        vstd::seq_lib::seq_to_set_is_finite(before[p]@);
                        vstd::set_lib::lemma_len_union(before[p]@.to_set(), added[p]@.to_set());
                        vstd::set_lib::lemma_len_subset(rows@[p]@.to_set(), before[p]@.to_set().union(added[p]@.to_set()));
                        assert(2 * pc * n + 2 * n == 2 * (pc + 1) * n) by (nonlinear_arith);
                    }
                    assert forall|p: int, x: Seq<i32>| 0 <= p < rows@.len() && #[trigger] rows@[p]@.to_set().contains(x) implies start_rows[p]@.to_set().contains(x)
                        || exists|k: int| 0 <= k < positions@.len() && positions@[k] == p && x.len() == (#[trigger] slots@[k])@.len() by {
                        if !before[p]@.to_set().contains(x) {
                            assert(added[p]@.to_set().contains(x));
                            if first_rows@[p]@.to_set().contains(x) {
                                let k = choose|k: int| 0 <= k < positions@.len() && included(k, None, n) && positions@[k] == p
                                    && x == project_spec(#[trigger] slots@[k]@, first@);
                                assert(x.len() == slots@[k]@.len());
                            } else {
                                assert(second_rows@[p]@.to_set().contains(x));
                                let k = choose|k: int| 0 <= k < positions@.len() && included(k, None, n) && positions@[k] == p
                                    && x == project_spec(#[trigger] slots@[k]@, second@);
                                assert(x.len() == slots@[k]@.len());
                            }
                        }
                    }
                    assert(*fresh <= start_fresh + (pc + 1) * variable_count) by {
                        assert(pc * variable_count + variable_count == (pc + 1) * variable_count) by (nonlinear_arith);
                    }
                }
            }
            proof {
                assert forall|k: int| 0 <= k < positions@.len() implies rows@[positions@[k] as int]@.to_set().contains(#[trigger] project_spec(slots@[k]@, first@)) by {
                    assert(included(k, None, positions@.len() as int));
                    assert(first_rows@[positions@[k] as int]@.to_set().contains(project_spec(slots@[k]@, first@)));
                    assert(added[positions@[k] as int]@.to_set().contains(project_spec(slots@[k]@, first@)));
                }
                assert forall|k: int| 0 <= k < positions@.len() implies rows@[positions@[k] as int]@.to_set().contains(#[trigger] project_spec(slots@[k]@, second@)) by {
                    assert(included(k, None, positions@.len() as int));
                    assert(second_rows@[positions@[k] as int]@.to_set().contains(project_spec(slots@[k]@, second@)));
                    assert(added[positions@[k] as int]@.to_set().contains(project_spec(slots@[k]@, second@)));
                }
                assert(complement_pair(rows@, positions@, slots@, names, bound, first@, second@));
                let a = (*edge_marker - 1) as int;
                assert forall|p: int, x: Seq<i32>| 0 <= p < added.len() && #[trigger] added[p]@.to_set().contains(x)
                    implies markers_below(x, layout, a + 1) && markers_from(x, layout, a) by {
                    if !first_rows@[p]@.to_set().contains(x) {
                        assert(second_rows@[p]@.to_set().contains(x));
                    }
                }
                lemma_marked_insertion(start_rows, before, added, rows@, layout, start as int, a);
                assert forall|j: int| 0 <= j < i && (#[trigger] accesses@[j]).partial_spec(atoms@) implies exists|f: Seq<i32>, g: Seq<i32>|
                    #[trigger] complement_pair(rows@, positions@, slots@, names, names_view(accesses@[j].bound_variables@), f, g) by {
                    let (f, g) = choose|f: Seq<i32>, g: Seq<i32>|
                        #[trigger] complement_pair(before, positions@, slots@, names, names_view(accesses@[j].bound_variables@), f, g);
                    lemma_witnessed_grows(before, rows@, positions@, slots@, f);
                    lemma_witnessed_grows(before, rows@, positions@, slots@, g);
                    assert(complement_pair(rows@, positions@, slots@, names, names_view(accesses@[j].bound_variables@), f, g));
                }
            }
        } else {
            proof {
                assert(!accesses@[i as int].partial_spec(atoms@));
                assert(partial_count(accesses@, atoms@, (i + 1) as nat) == pc);
            }
        }
    }
    Ok(())
}

/// Two complete proofs whose assignments agree on every variable but the
/// existential ones, and differ on one of those.
pub open spec fn shared_head_pair(
    rows: Seq<RowSet>,
    positions: Seq<usize>,
    slots: Seq<Vec<usize>>,
    names: Seq<Seq<char>>,
    existentials: Seq<Seq<char>>,
    first: Seq<i32>,
    second: Seq<i32>,
) -> bool {
    &&& witnessed(rows, positions, slots, first)
    &&& witnessed(rows, positions, slots, second)
    &&& first.len() == names.len()
    &&& second.len() == names.len()
    &&& forall|i: int| 0 <= i < names.len() && !existentials.contains(#[trigger] names[i]) ==> first[i] == second[i]
    &&& exists|i: int| 0 <= i < names.len() && existentials.contains(#[trigger] names[i]) && first[i] != second[i]
}

/// What `without` keeps: the variables that the head does not name.
proof fn lemma_without_contains(vars: Seq<Seq<char>>, head: Seq<Seq<char>>, x: Seq<char>)
    ensures
        crate::analysis::without(vars, head).contains(x) <==> vars.contains(x) && !head.contains(x),
    decreases vars.len(),
{
    if vars.len() > 0 {
        let init = vars.drop_last();
        lemma_without_contains(init, head, x);
        let w = crate::analysis::without(init, head);
        assert(vars =~= init.push(vars.last()));
        if vars.contains(x) && !init.contains(x) {
            assert(vars.last() == x) by {
                let i = choose|i: int| 0 <= i < vars.len() && vars[i] == x;
                if i < vars.len() - 1 {
                    assert(init[i] == x);
                }
            }
        }
        if !head.contains(vars.last()) {
            assert(w.push(vars.last())[w.len() as int] == vars.last());
            if w.push(vars.last()).contains(x) && !w.contains(x) {
                let i = choose|i: int| 0 <= i < w.len() + 1 && w.push(vars.last())[i] == x;
                if i < w.len() {
                    assert(w[i] == x);
                }
            }
            if w.contains(x) {
                let i = choose|i: int| 0 <= i < w.len() && w[i] == x;
                assert(w.push(vars.last())[i] == x);
            }
        }
        if init.contains(x) {
            let i = choose|i: int| 0 <= i < init.len() && init[i] == x;
            assert(vars[i] == x);
        }
    }
}

/// The first position of `x` in `names`, or -1 where it is absent.
pub open spec fn slot_of(names: Seq<Seq<char>>, x: Seq<char>) -> int {
    if exists|i: int| 0 <= i < names.len() && #[trigger] names[i] == x && forall|k: int| 0 <= k < i ==> names[k] != x {
        choose|i: int| 0 <= i < names.len() && #[trigger] names[i] == x && forall|k: int| 0 <= k < i ==> names[k] != x
    } else {
        -1
    }
}

/// The second proof of a shared head: the first proof with the first `upto`
/// existential variables set, in order, to fresh values from `fresh` on.
pub open spec fn shared_values(
    first: Seq<i32>,
    names: Seq<Seq<char>>,
    existentials: Seq<Seq<char>>,
    fresh_base: int,
    fresh: int,
    upto: int,
) -> Seq<i32>
    decreases upto,
{
    if upto <= 0 {
        first
    } else {
        let prev = shared_values(first, names, existentials, fresh_base, fresh, upto - 1);
        let v = slot_of(names, existentials[upto - 1]);
        if 0 <= v < prev.len() {
            prev.update(v, (fresh_base + fresh + upto - 1) as i32)
        } else {
            prev
        }
    }
}

/// The rows that the shared-head step adds to `sets`, with edge marker
/// `marker` and fresh values from `fresh`: nothing where no variable is
/// existential, else every occurrence's projections of the next edge
/// assignment and of its copy with fresh existential values.
pub open spec fn shared_head_sets(
    sets: Seq<Set<Seq<i32>>>,
    positions: Seq<usize>,
    slots: Seq<Vec<usize>>,
    names: Seq<Seq<char>>,
    existentials: Seq<Seq<char>>,
    layout: PlantingLayout,
    marker: int,
    fresh: int,
) -> Seq<Set<Seq<i32>>> {
    if existentials.len() == 0 {
        sets
    } else {
        let first = edge_values(layout, names.len(), marker);
        let second = shared_values(first, names, existentials, layout.fresh_base as int, fresh, existentials.len() as int);
        let n = positions.len() as int;
        union_sets(sets, union_sets(projected_sets(positions, slots, sets.len(), first, None, n),
            projected_sets(positions, slots, sets.len(), second, None, n)))
    }
}

/// `name_slot`'s answer is `slot_of`.
proof fn lemma_slot_of(names: Seq<Seq<char>>, x: Seq<char>, v: int)
    requires
        0 <= v < names.len(),
        names[v] == x,
        forall|k: int| 0 <= k < v ==> names[k] != x,
    ensures
        slot_of(names, x) == v,
{
    assert(0 <= v < names.len() && names[v] == x && forall|k: int| 0 <= k < v ==> names[k] != x);
    let i = slot_of(names, x);
    assert(0 <= i < names.len() && names[i] == x && forall|k: int| 0 <= k < i ==> names[k] != x);
    if i < v {
        assert(names[i] != x);
    } else if v < i {
        assert(names[v] != x);
    }
}

/// When the head projects variables away, two distinct complete proofs agree
/// on the head, which makes final set semantics observable.
#[verifier::loop_isolation(false)]
#[verifier::spinoff_prover]
#[verifier::rlimit(50)]
fn plant_shared_head(
    positions: &Vec<usize>,
    slots: &Vec<Vec<usize>>,
    variables: &Vec<String>,
    existential_variables: &Vec<String>,
    relation_count: usize,
    limits: Limits,
    layout: PlantingLayout,
    rows: &mut Vec<RowSet>,
    active: &Vec<Option<Vec<i32>>>,
    edge_marker: &mut usize,
    fresh: &mut usize,
) -> (r: Result<(), GenerateError>)
    requires
        shape_ok(positions@, slots@, relation_count as nat, variables@.len()),
        variables@.len() <= i64::MAX,
        layout.edge_base >= 1 && layout.edge_stride >= 0 && layout.fresh_base >= 1,
        *old(edge_marker) + (if existential_variables@.len() > 0 { 1int } else { 0int }) <= layout.edge_marker_count,
        layout.edge_marker_count < i64::MAX,
        *old(fresh) <= 0x8000_0000,
        planting_ok(old(rows)@, active@, relation_count as nat, limits.distinct_rows as nat),
        layout.fresh_base >= layout.edge_base,
        layout.fresh_base == layout.edge_base + variables@.len() * layout.edge_stride + 1,
        layout.edge_stride == layout.edge_marker_count + 1,
        forall|e: int| 0 <= e < existential_variables@.len() ==> names_view(variables@).contains(#[trigger] existential_variables@[e]@),
        rows_below(old(rows)@, layout, *old(edge_marker) as int),
    ensures
        r matches Err(e) ==> planting_error(e),
        r is Ok ==> planting_ok(final(rows)@, active@, relation_count as nat, limits.distinct_rows as nat),
        r is Ok ==> grows(old(rows)@, final(rows)@),
        r is Ok ==> additions_avoid(old(rows)@, final(rows)@, layout.anti_base as int, layout.edge_base as int),
        r is Ok ==> *final(edge_marker) == *old(edge_marker) + if existential_variables@.len() > 0 { 1int } else { 0int },
        r is Ok && existential_variables@.len() > 0 ==> exists|first: Seq<i32>, second: Seq<i32>|
            #[trigger] shared_head_pair(final(rows)@, positions@, slots@, names_view(variables@), names_view(existential_variables@), first, second),
        r is Ok ==> rows_below(final(rows)@, layout, *final(edge_marker) as int),
        r is Ok ==> additions_from(old(rows)@, final(rows)@, layout, *old(edge_marker) as int),
        existential_variables@.len() == 0 ==> r is Ok && final(rows)@ == old(rows)@,
        r is Ok ==> row_sets(final(rows)@) == shared_head_sets(row_sets(old(rows)@), positions@, slots@, names_view(variables@),
            names_view(existential_variables@), layout, *old(edge_marker) as int, *old(fresh) as int),
        layout.fresh_base + *old(fresh) + existential_variables@.len() <= i32::MAX
            && (forall|p: int| 0 <= p < old(rows)@.len() ==> (#[trigger] old(rows)@[p])@.len() + 2 * positions@.len() <= limits.distinct_rows)
            ==> r is Ok && occurrence_widths(old(rows)@, final(rows)@, positions@, slots@),
{
    let ghost start_rows = rows@;
    let ghost start_fresh = *fresh;
    let ghost owed = layout.fresh_base + start_fresh + existential_variables@.len() <= i32::MAX
        && (forall|p: int| 0 <= p < start_rows.len() ==> (#[trigger] start_rows[p])@.len() + 2 * positions@.len() <= limits.distinct_rows);
    if existential_variables.len() == 0 {
        return Ok(());
    }
    let variable_count = variables.len();
    proof {
        if owed {
            let vc = variable_count as int;
            let es = layout.edge_stride as int;
            let a = *edge_marker as int;
            if vc > 0 {
                assert((vc - 1) * es + a < vc * es + 1) by (nonlinear_arith) requires vc >= 1, 0 <= a < es;
            }
        }
    }
    let ghost marker = *edge_marker as int;
    let first = planted_assignment(variable_count, layout.edge_base, layout.edge_stride, *edge_marker)?;
    proof {
        assert(first@ =~= edge_values(layout, variable_count as nat, *edge_marker as int));
    }
    *edge_marker += 1;
    let mut second = copy_values(&first);
    let ghost names = names_view(variables@);
    let ghost existentials = names_view(existential_variables@);
    let ghost mut changed: int = -1;
    proof {
        lemma_assignment_above(first@, layout.edge_base as int, layout.edge_stride as int, (*edge_marker - 1) as int, variable_count as int, layout.anti_base as int, layout.edge_base as int);
        lemma_assignment_below(first@, layout.edge_base as int, layout.edge_stride as int, (*edge_marker - 1) as int, variable_count as int, layout.fresh_base as int, 0x1_0000_0000);
    }
    for e in 0..existential_variables.len()
        invariant
            variable_count == variables@.len(),
            second@.len() == variable_count,
            first@.len() == variable_count,
            positive_values(second@),
            avoids_range(second@, layout.anti_base as int, layout.edge_base as int),
            layout.fresh_base >= layout.edge_base,
            layout.fresh_base >= 1,
            *fresh <= 0x8000_0000,
            names == names_view(variables@),
            existentials == names_view(existential_variables@),
            forall|x: int| 0 <= x < existential_variables@.len() ==> names.contains(#[trigger] existential_variables@[x]@),
            forall|i: int| 0 <= i < variable_count ==> #[trigger] first@[i] < layout.fresh_base,
            forall|i: int| 0 <= i < variable_count && !existentials.contains(#[trigger] names[i]) ==> first@[i] == second@[i],
            forall|i: int| 0 <= i < variable_count ==> #[trigger] second@[i] == first@[i] || second@[i] >= layout.fresh_base,
            e > 0 ==> 0 <= changed < variable_count && existentials.contains(names[changed]) && second@[changed] >= layout.fresh_base,
            *fresh == start_fresh + e,
            owed ==> layout.fresh_base + start_fresh + existential_variables@.len() <= i32::MAX,
            second@ == shared_values(first@, names, existentials, layout.fresh_base as int, start_fresh as int, e as int),
            names.len() == variable_count,
    {
        let value = layout.fresh_value(*fresh)?;
        *fresh += 1;
        match crate::analysis::name_slot(variables, &existential_variables[e]) {
            Some(v) => {
                proof {
                    assert(names[v as int] == existential_variables@[e as int]@);
                    assert(existentials[e as int] == existential_variables@[e as int]@);
                    lemma_slot_of(names, existentials[e as int], v as int);
                }
                second.set(v, value);
                proof {
                    assert(second@ =~= shared_values(first@, names, existentials, layout.fresh_base as int, start_fresh as int, e + 1));
                    assert(names[v as int] == existential_variables@[e as int]@);
                    assert(existentials[e as int] == existential_variables@[e as int]@);
                    assert(existentials.contains(names[v as int]));
                    if e == 0 {
                        changed = v as int;
                    }
                }
            },
            None => {
                proof {
                    assert(names.contains(existential_variables@[e as int]@));
                }
            },
        }
        proof {
            assert(second@ == shared_values(first@, names, existentials, layout.fresh_base as int, start_fresh as int, e + 1));
        }
    }
    let first_rows = project_occurrences(positions, slots, relation_count, &first, None, positions.len());
    let second_rows = project_occurrences(positions, slots, relation_count, &second, None, positions.len());
    proof {
        lemma_projection_positive(first_rows@, positions@, slots@, first@, None, positions@.len() as int, relation_count as nat);
        lemma_projection_positive(second_rows@, positions@, slots@, second@, None, positions@.len() as int, relation_count as nat);
        lemma_projection_avoids(first_rows@, positions@, slots@, first@, None, positions@.len() as int, relation_count as nat, layout.anti_base as int, layout.edge_base as int);
        lemma_projection_avoids(second_rows@, positions@, slots@, second@, None, positions@.len() as int, relation_count as nat, layout.anti_base as int, layout.edge_base as int);
    }
    proof {
        let a = (*edge_marker - 1) as int;
        lemma_edge_assignment_marked(first@, first@, layout, a);
        lemma_edge_assignment_marked(second@, first@, layout, a);
        lemma_projection_marked(first_rows@, positions@, slots@, first@, None, positions@.len() as int, relation_count as nat, layout, a, a + 1);
        lemma_projection_marked(second_rows@, positions@, slots@, second@, None, positions@.len() as int, relation_count as nat, layout, a, a + 1);
    }
    let combined = merge_projected(first_rows, second_rows);
    proof {
        assert forall|p: int| 0 <= p < combined@.len() implies positive_set(#[trigger] combined@[p]@.to_set()) by {
            assert(positive_set(first_rows@[p]@.to_set()));
            assert(positive_set(second_rows@[p]@.to_set()));
        }
    }
    proof {
        assert forall|p: int, x: Seq<i32>| 0 <= p < combined@.len() && #[trigger] combined@[p]@.to_set().contains(x)
            implies avoids_range(x, layout.anti_base as int, layout.edge_base as int) by {
            if !first_rows@[p]@.to_set().contains(x) {
                assert(second_rows@[p]@.to_set().contains(x));
            }
        }
    }
    let ghost added = combined@;
    let ghost before = rows@;
    proof {
        if owed {
            let n = positions@.len() as int;
            assert forall|p: int| 0 <= p < before.len() && p < added.len() implies (#[trigger] before[p])@.to_set().union(added[p]@.to_set()).len()
                <= limits.distinct_rows by {
                lemma_projection_len(first_rows@, positions@, slots@, first@, None, n, p);
                lemma_projection_len(second_rows@, positions@, slots@, second@, None, n, p);
                vstd::set_lib::lemma_len_union(first_rows@[p]@.to_set(), second_rows@[p]@.to_set());
                before[p].lemma_distinct();
                vstd::seq_lib::seq_to_set_is_finite(before[p]@);
                vstd::set_lib::lemma_set_union_finite_iff(first_rows@[p]@.to_set(), second_rows@[p]@.to_set());
                vstd::set_lib::lemma_len_union(before[p]@.to_set(), added[p]@.to_set());
            }
        }
    }
    insert_planted(rows, active, combined, relation_count, limits.distinct_rows)?;
    proof {
        let n = positions@.len() as int;
        lemma_projection_sets(first_rows@, positions@, slots@, first@, None, n);
        lemma_projection_sets(second_rows@, positions@, slots@, second@, None, n);
        assert(row_sets(added) =~= union_sets(row_sets(first_rows@), row_sets(second_rows@))) by {
            assert forall|p: int| 0 <= p < added.len() implies #[trigger] row_sets(added)[p] == union_sets(row_sets(first_rows@), row_sets(second_rows@))[p] by {
                assert(added[p]@.to_set() == first_rows@[p]@.to_set().union(second_rows@[p]@.to_set()));
            }
        }
        lemma_inserted_sets(before, added, rows@);
        assert(row_sets(start_rows).len() == relation_count);
        assert(row_sets(rows@) == shared_head_sets(row_sets(start_rows), positions@, slots@, names, existentials, layout, marker, start_fresh as int));
    }
    proof {
        if owed {
            let n = positions@.len() as int;
            assert forall|p: int, x: Seq<i32>| 0 <= p < rows@.len() && #[trigger] rows@[p]@.to_set().contains(x) implies start_rows[p]@.to_set().contains(x)
                || exists|k: int| 0 <= k < positions@.len() && positions@[k] == p && x.len() == (#[trigger] slots@[k])@.len() by {
                if !before[p]@.to_set().contains(x) {
                    assert(added[p]@.to_set().contains(x));
                    if first_rows@[p]@.to_set().contains(x) {
                        let k = choose|k: int| 0 <= k < positions@.len() && included(k, None, n) && positions@[k] == p
                            && x == project_spec(#[trigger] slots@[k]@, first@);
                        assert(x.len() == slots@[k]@.len());
                    } else {
                        assert(second_rows@[p]@.to_set().contains(x));
                        let k = choose|k: int| 0 <= k < positions@.len() && included(k, None, n) && positions@[k] == p
                            && x == project_spec(#[trigger] slots@[k]@, second@);
                        assert(x.len() == slots@[k]@.len());
                    }
                }
            }
        }
    }
    proof {
        let a = (*edge_marker - 1) as int;
        assert forall|p: int, x: Seq<i32>| 0 <= p < added.len() && #[trigger] added[p]@.to_set().contains(x)
            implies markers_below(x, layout, a + 1) && markers_from(x, layout, a) by {
            if !first_rows@[p]@.to_set().contains(x) {
                assert(second_rows@[p]@.to_set().contains(x));
            }
        }
        assert(grows(start_rows, before));
        lemma_marked_insertion(start_rows, before, added, rows@, layout, a, a);
        assert forall|k: int| 0 <= k < positions@.len() implies rows@[positions@[k] as int]@.to_set().contains(#[trigger] project_spec(slots@[k]@, first@)) by {
            assert(included(k, None, positions@.len() as int));
            assert(first_rows@[positions@[k] as int]@.to_set().contains(project_spec(slots@[k]@, first@)));
            assert(added[positions@[k] as int]@.to_set().contains(project_spec(slots@[k]@, first@)));
        }
        assert forall|k: int| 0 <= k < positions@.len() implies rows@[positions@[k] as int]@.to_set().contains(#[trigger] project_spec(slots@[k]@, second@)) by {
            assert(included(k, None, positions@.len() as int));
            assert(second_rows@[positions@[k] as int]@.to_set().contains(project_spec(slots@[k]@, second@)));
            assert(added[positions@[k] as int]@.to_set().contains(project_spec(slots@[k]@, second@)));
        }
        assert(first@[changed] != second@[changed]);
        assert(shared_head_pair(rows@, positions@, slots@, names, existentials, first@, second@));
    }
    Ok(())
}

/// The rows of each input as a set.
pub open spec fn row_sets(rows: Seq<RowSet>) -> Seq<Set<Seq<i32>>> {
    rows.map_values(|r: RowSet| r@.to_set())
}

/// The rows that an assignment projects to in each of `relation_count`
/// inputs, over the included occurrences.
pub open spec fn projected_sets(
    positions: Seq<usize>,
    slots: Seq<Vec<usize>>,
    relation_count: nat,
    values: Seq<i32>,
    omitted: Option<usize>,
    end: int,
) -> Seq<Set<Seq<i32>>> {
    Seq::new(
        relation_count,
        |p: int|
            Set::new(
                |x: Seq<i32>|
                    exists|k: int|
                        0 <= k < positions.len() && included(k, omitted, end) && positions[k] == p && x == project_spec(
                            #[trigger] slots[k]@,
                            values,
                        ),
            ),
    )
}

/// The values of complete witness number `w`.
pub open spec fn witness_values(layout: PlantingLayout, variable_count: nat, w: int) -> Seq<i32> {
    Seq::new(variable_count, |i: int| planted_value(layout.complete_base as int, layout.complete_stride as int, i, w) as i32)
}

/// Every input stays within `distinct_rows` rows after gaining `added`.
pub open spec fn sets_fit(sets: Seq<Set<Seq<i32>>>, added: Seq<Set<Seq<i32>>>, distinct_rows: nat) -> bool {
    forall|p: int| 0 <= p < sets.len() && p < added.len() ==> (#[trigger] sets[p]).union(added[p]).len() <= distinct_rows
}

/// Each input gains the rows of the same input of `added`.
pub open spec fn union_sets(sets: Seq<Set<Seq<i32>>>, added: Seq<Set<Seq<i32>>>) -> Seq<Set<Seq<i32>>> {
    Seq::new(sets.len(), |p: int| if p < added.len() { sets[p].union(added[p]) } else { sets[p] })
}

/// The sets after complete witnesses `w`, `w + 1`, ... below `count` are
/// added, each while it keeps every input within `distinct_rows`; the
/// first that does not fit ends the filling.
pub open spec fn witness_sets(
    sets: Seq<Set<Seq<i32>>>,
    positions: Seq<usize>,
    slots: Seq<Vec<usize>>,
    layout: PlantingLayout,
    variable_count: nat,
    distinct_rows: nat,
    count: int,
    w: int,
) -> Seq<Set<Seq<i32>>>
    decreases count - w,
{
    if w >= count {
        sets
    } else {
        let added = projected_sets(positions, slots, sets.len(), witness_values(layout, variable_count, w), None, positions.len() as int);
        if sets_fit(sets, added, distinct_rows) {
            witness_sets(union_sets(sets, added), positions, slots, layout, variable_count, distinct_rows, count, w + 1)
        } else {
            sets
        }
    }
}

/// Fills the remaining positive-row budget with complete witnesses, stopping
/// at the first that would push an input past the row target.
fn plant_witnesses(
    positions: &Vec<usize>,
    slots: &Vec<Vec<usize>>,
    variable_count: usize,
    relation_count: usize,
    limits: Limits,
    layout: PlantingLayout,
    rows: &mut Vec<RowSet>,
    active: &Vec<Option<Vec<i32>>>,
) -> (r: Result<(), GenerateError>)
    requires
        shape_ok(positions@, slots@, relation_count as nat, variable_count as nat),
        variable_count <= i64::MAX,
        layout.complete_base >= 1,
        layout.complete_stride >= 0,
        limits.planted_witnesses <= 1_000_000,
        planting_ok(old(rows)@, active@, relation_count as nat, limits.distinct_rows as nat),
        layout.anti_base == layout.complete_base + variable_count * layout.complete_stride + 1,
        layout.complete_stride == limits.planted_witnesses + 1,
        layout.edge_base >= layout.anti_base,
    ensures
        r matches Err(e) ==> planting_error(e),
        r is Ok ==> planting_ok(final(rows)@, active@, relation_count as nat, limits.distinct_rows as nat),
        r is Ok ==> grows(old(rows)@, final(rows)@),
        r is Ok ==> additions_avoid(old(rows)@, final(rows)@, layout.anti_base as int, layout.edge_base as int),
        r is Ok ==> additions_avoid(old(rows)@, final(rows)@, layout.edge_base as int, layout.fresh_base as int),
        r is Ok ==> row_sets(final(rows)@) == witness_sets(row_sets(old(rows)@), positions@, slots@, layout, variable_count as nat,
            limits.distinct_rows as nat, limits.planted_witnesses as int, 1),
        variable_count == 0 || limits.planted_witnesses <= 1 || planted_value(layout.complete_base as int, layout.complete_stride as int,
            variable_count - 1, limits.planted_witnesses - 1) <= i32::MAX ==> r is Ok,
        r matches Err(e) ==> e is ValueSpaceExhausted,
{
    let ghost start_rows = rows@;
    let ghost goal = witness_sets(row_sets(start_rows), positions@, slots@, layout, variable_count as nat, limits.distinct_rows as nat,
        limits.planted_witnesses as int, 1);
    let ghost values_fit = variable_count == 0 || limits.planted_witnesses <= 1 || planted_value(layout.complete_base as int,
        layout.complete_stride as int, variable_count - 1, limits.planted_witnesses - 1) <= i32::MAX;
    let mut witness: usize = 1;
    while witness < limits.planted_witnesses
        invariant
            shape_ok(positions@, slots@, relation_count as nat, variable_count as nat),
            variable_count <= i64::MAX,
            layout.complete_base >= 1,
            layout.complete_stride >= 0,
            limits.planted_witnesses <= 1_000_000,
            layout.anti_base == layout.complete_base + variable_count * layout.complete_stride + 1,
            layout.complete_stride == limits.planted_witnesses + 1,
            1 <= witness,
            planting_ok(rows@, active@, relation_count as nat, limits.distinct_rows as nat),
            grows(start_rows, rows@),
            additions_avoid(start_rows, rows@, layout.anti_base as int, layout.edge_base as int),
            additions_avoid(start_rows, rows@, layout.edge_base as int, layout.fresh_base as int),
            layout.edge_base >= layout.anti_base,
            witness <= limits.planted_witnesses || limits.planted_witnesses <= 1,
            witness_sets(row_sets(rows@), positions@, slots@, layout, variable_count as nat, limits.distinct_rows as nat,
                limits.planted_witnesses as int, witness as int) == goal,
            values_fit == (variable_count == 0 || limits.planted_witnesses <= 1 || planted_value(layout.complete_base as int,
                layout.complete_stride as int, variable_count - 1, limits.planted_witnesses - 1) <= i32::MAX),
        ensures
            witness_sets(row_sets(rows@), positions@, slots@, layout, variable_count as nat, limits.distinct_rows as nat,
                limits.planted_witnesses as int, witness as int) == row_sets(rows@),
        decreases limits.planted_witnesses - witness,
    {
        let assignment = planted_assignment(variable_count, layout.complete_base, layout.complete_stride, witness)?;
        let projected = project_occurrences(positions, slots, relation_count, &assignment, None, positions.len());
        let ghost sets = row_sets(rows@);
        let ghost added = projected_sets(positions@, slots@, sets.len(), witness_values(layout, variable_count as nat, witness as int), None,
            positions@.len() as int);
        proof {
            assert(assignment@ =~= witness_values(layout, variable_count as nat, witness as int));
            assert(row_sets(projected@) =~= added) by {
                assert forall|p: int| 0 <= p < added.len() implies #[trigger] row_sets(projected@)[p] == added[p] by {
                    assert(projected@[p]@.to_set() =~= added[p]);
                }
            }
        }
        proof {
            lemma_projection_positive(projected@, positions@, slots@, assignment@, None, positions@.len() as int, relation_count as nat);
            lemma_assignment_below(assignment@, layout.complete_base as int, layout.complete_stride as int, witness as int, variable_count as int, layout.anti_base as int, layout.edge_base as int);
            lemma_projection_avoids(projected@, positions@, slots@, assignment@, None, positions@.len() as int, relation_count as nat, layout.anti_base as int, layout.edge_base as int);
            lemma_assignment_below(assignment@, layout.complete_base as int, layout.complete_stride as int, witness as int, variable_count as int, layout.anti_base as int, 0x1_0000_0000);
            assert(avoids_range(assignment@, layout.edge_base as int, layout.fresh_base as int));
            lemma_projection_avoids(projected@, positions@, slots@, assignment@, None, positions@.len() as int, relation_count as nat, layout.edge_base as int, layout.fresh_base as int);
        }
        if !projected_rows_fit(rows, &projected, limits.distinct_rows) {
            proof {
                let p = choose|p: int| 0 <= p < rows@.len() && p < projected@.len()
                    && !((#[trigger] rows@[p])@.to_set().union(projected@[p]@.to_set()).len() <= limits.distinct_rows);
                assert(sets[p] == rows@[p]@.to_set());
                assert(added[p] == row_sets(projected@)[p]);
                assert(!sets_fit(sets, added, limits.distinct_rows as nat));
            }
            break;
        }
        let ghost before = rows@;
        proof {
            assert(sets_fit(sets, added, limits.distinct_rows as nat));
        }
        insert_planted(rows, active, projected, relation_count, limits.distinct_rows)?;
        proof {
            lemma_additions_chain(start_rows, before, rows@, layout.anti_base as int, layout.edge_base as int);
            lemma_additions_chain(start_rows, before, rows@, layout.edge_base as int, layout.fresh_base as int);
            assert(row_sets(rows@) =~= union_sets(sets, added)) by {
                assert forall|p: int| 0 <= p < sets.len() implies #[trigger] row_sets(rows@)[p] == union_sets(sets, added)[p] by {
                    assert(rows@[p]@.to_set() =~= before[p]@.to_set().union(projected@[p]@.to_set())) by {
                        assert(before[p]@.to_set().subset_of(rows@[p]@.to_set()));
                    }
                }
            }
        }
        witness += 1;
    }
    Ok(())
}

/// The rows of each input after coverage planting: each input gains the rows
/// of the primary proof, then those of the anti-witnesses, of the
/// missing-key probes, of the composite-key decoys, of the complement pairs,
/// of the shared-head pair, and last those of the further complete witnesses
/// that fit the row target.
#[verifier::opaque]
pub open spec fn coverage_sets(
    sets: Seq<Set<Seq<i32>>>,
    atoms: Seq<Atom>,
    accesses: Seq<AccessPattern>,
    positions: Seq<usize>,
    slots: Seq<Vec<usize>>,
    memberships: Seq<usize>,
    names: Seq<Seq<char>>,
    existentials: Seq<Seq<char>>,
    layout: PlantingLayout,
    distinct_rows: nat,
    planted_witnesses: int,
) -> Seq<Set<Seq<i32>>> {
    let vc = names.len();
    let primary = projected_sets(positions, slots, sets.len(), witness_values(layout, vc, 0), None, positions.len() as int);
    let anti = anti_sets(union_sets(sets, primary), positions, slots, memberships, layout, vc, memberships.len());
    let missing = missing_key_sets(anti, atoms, accesses, positions, slots, layout, vc, 0, accesses.len());
    let pt = partial_count(accesses, atoms, accesses.len()) as int;
    let cm = composite_key_total(accesses, accesses.len()) as int;
    let decoyed = decoy_sets(missing, positions, slots, accesses, layout, vc, pt, layout.fresh_base as int, accesses.len());
    let paired = complement_sets(decoyed, atoms, accesses, positions, slots, names, layout, pt + cm, cm, accesses.len());
    let shared = shared_head_sets(paired, positions, slots, names, existentials, layout, 2 * pt + cm,
        cm + fresh_drawn(accesses, atoms, names, accesses.len()));
    witness_sets(shared, positions, slots, layout, vc, distinct_rows, planted_witnesses, 1)
}

/// Plants complete proofs and the access-specific edge cases: an active
/// duplicate per input, a leave-one-out witness per full-key membership,
/// reachable missing partial keys, one near miss per composite-key column,
/// two complements per partial key, and two proofs sharing one head.
fn plant_coverage(
    atoms: &Vec<Atom>,
    positions: &Vec<usize>,
    slots: &Vec<Vec<usize>>,
    accesses: &Vec<AccessPattern>,
    variables: &Vec<String>,
    existential_variables: &Vec<String>,
    memberships: &Vec<usize>,
    relation_count: usize,
    limits: Limits,
    layout: PlantingLayout,
    rows: &mut Vec<RowSet>,
    active: &mut Vec<Option<Vec<i32>>>,
) -> (r: Result<(), GenerateError>)
    requires
        planting_inputs(atoms@, positions@, slots@, accesses@, variables@, relation_count as nat, layout),
        layout.edge_marker_count == crate::analysis::edge_marker_total(accesses@, atoms@, existential_variables@.len() > 0),
        forall|j: int| 0 <= j < memberships@.len() ==> (#[trigger] memberships@[j]) < atoms@.len(),
        memberships@.len() < i64::MAX,
        limits.planted_witnesses <= 1_000_000,
        planting_ok(old(rows)@, old(active)@, relation_count as nat, limits.distinct_rows as nat),
        layout.fresh_base >= layout.edge_base,
        layout.anti_base == layout.complete_base + variables@.len() * layout.complete_stride + 1,
        layout.complete_stride == limits.planted_witnesses + 1,
        layout.anti_stride == memberships@.len() + 1,
        layout.edge_base == layout.anti_base + variables@.len() * layout.anti_stride + 1,
        layout.fresh_base == layout.edge_base + variables@.len() * layout.edge_stride + 1,
        layout.edge_stride == layout.edge_marker_count + 1,
        forall|e: int| 0 <= e < existential_variables@.len() ==> names_view(variables@).contains(#[trigger] existential_variables@[e]@),
        rows_below(old(rows)@, layout, 0),
    ensures
        r matches Err(e) ==> planting_error(e),
        r is Ok ==> planting_ok(final(rows)@, final(active)@, relation_count as nat, limits.distinct_rows as nat),
        r is Ok ==> witnessed(final(rows)@, positions@, slots@, witness_values(layout, variables@.len() as nat, 0)),
        r is Ok ==> forall|j: int| 0 <= j < memberships@.len() ==> #[trigger] anti_witnessed(final(rows)@, positions@, slots@, memberships@, layout, variables@.len() as int, j),
        r is Ok && existential_variables@.len() > 0 ==> exists|first: Seq<i32>, second: Seq<i32>|
            #[trigger] shared_head_pair(final(rows)@, positions@, slots@, names_view(variables@), names_view(existential_variables@), first, second),
        r is Ok ==> forall|k: int| 0 <= k < positions@.len() ==> (#[trigger] final(active)@[positions@[k] as int]) is Some,
        r is Ok ==> forall|p: int| 0 <= p < relation_count ==> #[trigger] least_marker(final(active)@[p],
            projected_sets(positions@, slots@, relation_count as nat, witness_values(layout, variables@.len() as nat, 0), None, positions@.len() as int)[p]),
        r is Ok ==> row_sets(final(rows)@) == coverage_sets(row_sets(old(rows)@), atoms@, accesses@, positions@,
            slots@, memberships@, names_view(variables@), names_view(existential_variables@), layout, limits.distinct_rows as nat,
            limits.planted_witnesses as int),
        r is Ok ==> forall|i: int| 0 <= i < accesses@.len() && (#[trigger] accesses@[i]).partial_spec(atoms@) ==> exists|first: Seq<i32>, second: Seq<i32>|
            #[trigger] complement_pair(final(rows)@, positions@, slots@, names_view(variables@), names_view(accesses@[i].bound_variables@), first, second),
        r is Ok ==> forall|i: int| 0 <= i < accesses@.len() && (#[trigger] accesses@[i]).partial_spec(atoms@)
            && !slots_supply_key(positions@, slots@, i, accesses@[i].key_columns@) ==> exists|values: Seq<i32>|
            #[trigger] missing_key(final(rows)@, positions@, slots@, i, accesses@[i].key_columns@, values)
                && edge_keyed(values, slots@, i, accesses@[i].key_columns@, layout),
        r is Ok ==> forall|q: int, j: int| 0 <= q < accesses@.len() && 0 <= j < accesses@[q].key_columns@.len() && accesses@[q].key_columns@.len() >= 2
            ==> #[trigger] decoy_survived(final(rows)@, positions@, slots@, accesses@, layout, q, j),
        ({
            let vc = variables@.len() as int;
            composites_distinct(positions@, slots@, accesses@)
                && memberships_distinct(positions@, slots@, memberships@)
                && (forall|j: int| 0 <= j < memberships@.len() ==> (#[trigger] slots@[memberships@[j] as int])@.len() > 0)
                && values_below(old(rows)@, layout.anti_base as int)
                && layout.fresh_base + composite_key_total(accesses@, accesses@.len()) + partial_count(accesses@, atoms@, accesses@.len())
                    * variables@.len() + existential_variables@.len() <= i32::MAX
                && (forall|p: int| 0 <= p < old(rows)@.len() ==> (#[trigger] old(rows)@[p])@.len() + (memberships@.len() + 3
                    + 3 * partial_count(accesses@, atoms@, accesses@.len()) + 2 * composite_key_total(accesses@, accesses@.len()))
                    * positions@.len() <= limits.distinct_rows)
                && (vc == 0 || limits.planted_witnesses <= 1 || planted_value(layout.complete_base as int, layout.complete_stride as int, vc - 1,
                limits.planted_witnesses - 1) <= i32::MAX) ==> r is Ok && occurrence_widths(old(rows)@, final(rows)@, positions@, slots@)
        }),
{
    let variable_count = variables.len();
    let ghost start_rows = rows@;
    let ghost n = positions@.len() as int;
    let ghost primary = projected_sets(positions@, slots@, relation_count as nat, witness_values(layout, variables@.len() as nat, 0), None, n);
    let ghost pt = partial_count(accesses@, atoms@, accesses@.len()) as int;
    let ghost cm = composite_key_total(accesses@, accesses@.len()) as int;
    let ghost owed = composites_distinct(positions@, slots@, accesses@)
        && memberships_distinct(positions@, slots@, memberships@)
        && (forall|j: int| 0 <= j < memberships@.len() ==> (#[trigger] slots@[memberships@[j] as int])@.len() > 0)
        && values_below(start_rows, layout.anti_base as int)
        && layout.fresh_base + composite_key_total(accesses@, accesses@.len()) + partial_count(accesses@, atoms@, accesses@.len())
            * variables@.len() + existential_variables@.len() <= i32::MAX
        && (forall|p: int| 0 <= p < start_rows.len() ==> (#[trigger] start_rows[p])@.len() + (memberships@.len() + 3
            + 3 * partial_count(accesses@, atoms@, accesses@.len()) + 2 * composite_key_total(accesses@, accesses@.len()))
            * positions@.len() <= limits.distinct_rows)
        && (variables@.len() == 0 || limits.planted_witnesses <= 1 || planted_value(layout.complete_base as int, layout.complete_stride as int,
        variables@.len() - 1, limits.planted_witnesses - 1) <= i32::MAX);
    proof {
        if owed {
            let vc = variable_count as int;
            let cs = layout.complete_stride as int;
            if vc > 0 {
                assert((vc - 1) * cs < vc * cs + 1) by (nonlinear_arith) requires vc >= 1, cs >= 1;
                lemma_planted_value_grows(layout.complete_base as int, cs, vc - 1, vc - 1, 0);
            }
            assert forall|p: int| 0 <= p < row_sets(start_rows).len() && p < primary.len() implies (#[trigger] row_sets(start_rows)[p]).union(primary[p]).len()
                <= limits.distinct_rows by {
                lemma_projected_sets_len(positions@, slots@, relation_count as nat, witness_values(layout, variables@.len() as nat, 0), p);
                start_rows[p].lemma_distinct();
                vstd::seq_lib::seq_to_set_is_finite(start_rows[p]@);
                vstd::set_lib::lemma_len_union(start_rows[p]@.to_set(), primary[p]);
                let m = memberships@.len() as int;
                assert((m + 3 + 3 * pt + 2 * cm) * n >= n) by (nonlinear_arith) requires m >= 0, n >= 0, pt >= 0, cm >= 0;
            }
        }
    }
    plant_primary(positions, slots, variable_count, relation_count, limits, layout, rows, active)?;
    let ghost primary_rows = rows@;
    proof {
        if owed {
            assert(layout.edge_base <= i32::MAX);
            let vc = variable_count as int;
            let cs = layout.complete_stride as int;
            let cb = layout.complete_base as int;
            assert forall|p: int, x: Seq<i32>, c: int|
                #![trigger primary_rows[p]@.to_set().contains(x), x[c]]
                0 <= p < primary_rows.len() && primary_rows[p]@.to_set().contains(x) && 0 <= c < x.len() implies x[c] < layout.anti_base by {
                assert(row_sets(primary_rows)[p].contains(x));
                if !start_rows[p]@.to_set().contains(x) {
                    assert(primary[p].contains(x));
                    let k = choose|k: int| 0 <= k < positions@.len() && included(k, None, n) && positions@[k] == p
                        && x == project_spec(#[trigger] slots@[k]@, witness_values(layout, variables@.len() as nat, 0));
                    let sl = slots@[k]@[c] as int;
                    assert(sl < vc);
                    lemma_planted_value_grows(cb, cs, sl, vc - 1, 0);
                    lemma_planted_value_grows(cb, cs, 0, sl, 0);
                    assert((vc - 1) * cs < vc * cs + 1) by (nonlinear_arith) requires vc >= 1, cs >= 1;
                    assert(x[c] == witness_values(layout, variables@.len() as nat, 0)[sl]);
                }
            }
            assert forall|p: int| 0 <= p < primary_rows.len() implies (#[trigger] primary_rows[p])@.len() + (memberships@.len() + 2 + 3 * pt + 2 * cm) * positions@.len()
                <= limits.distinct_rows by {
                lemma_projected_sets_len(positions@, slots@, relation_count as nat, witness_values(layout, variables@.len() as nat, 0), p);
                start_rows[p].lemma_distinct();
                primary_rows[p].lemma_distinct();
                vstd::seq_lib::seq_to_set_is_finite(start_rows[p]@);
                vstd::set_lib::lemma_len_union(start_rows[p]@.to_set(), primary[p]);
                assert(row_sets(primary_rows)[p] == start_rows[p]@.to_set().union(primary[p]));
                let m = memberships@.len() as int;
                assert((m + 3 + 3 * pt + 2 * cm) * n == (m + 2 + 3 * pt + 2 * cm) * n + n) by (nonlinear_arith);
            }
            assert forall|p: int| 0 <= p < primary_rows.len() implies (#[trigger] primary_rows[p])@.len() + memberships@.len() * positions@.len()
                <= limits.distinct_rows by {
                let m = memberships@.len() as int;
                assert((m + 2 + 3 * pt + 2 * cm) * n == m * n + (2 + 3 * pt + 2 * cm) * n) by (nonlinear_arith);
                assert((2 + 3 * pt + 2 * cm) * n >= 0) by (nonlinear_arith) requires pt >= 0, cm >= 0, n >= 0;
                assert(primary_rows[p]@.len() + (memberships@.len() + 2 + 3 * pt + 2 * cm) * positions@.len() <= limits.distinct_rows);
            }
        }
    }
    let ghost values = witness_values(layout, variable_count as nat, 0);
    plant_anti_witnesses(atoms, positions, slots, memberships, variable_count, relation_count, limits, layout, rows, active)?;
    let ghost anti_rows = rows@;
    proof {
        lemma_clear_additions(start_rows, primary_rows, layout, 0, 0);
        lemma_clear_additions(primary_rows, anti_rows, layout, 0, 0);
    }
    let mut edge_marker: usize = 0;
    let mut fresh: usize = 0;
    proof {
        if owed {
            assert(layout.fresh_base <= i32::MAX) by {
                assert(pt * variables@.len() >= 0) by (nonlinear_arith) requires pt >= 0;
            }
            assert forall|p: int| 0 <= p < anti_rows.len() implies (#[trigger] anti_rows[p])@.len() + pt * n <= limits.distinct_rows by {
                assert(anti_rows[p]@.len() <= primary_rows[p]@.len() + memberships@.len() * positions@.len());
                assert(primary_rows[p]@.len() + (memberships@.len() + 2 + 3 * pt + 2 * cm) * positions@.len() <= limits.distinct_rows);
                let m = memberships@.len() as int;
                assert((m + 2 + 3 * pt + 2 * cm) * n == m * n + pt * n + (2 + 2 * pt + 2 * cm) * n) by (nonlinear_arith);
                assert((2 + 2 * pt + 2 * cm) * n >= 0) by (nonlinear_arith) requires pt >= 0, cm >= 0, n >= 0;
            }
        }
    }
    plant_missing_keys(atoms, positions, slots, accesses, variables, relation_count, limits, layout, rows, active, &mut edge_marker)?;
    let ghost r1 = rows@;
    proof {
        if owed {
            assert(pt * variables@.len() >= 0) by (nonlinear_arith) requires pt >= 0;
            assert(layout.fresh_base + 0 + cm <= i32::MAX);
            assert forall|p: int| 0 <= p < r1.len() implies (#[trigger] r1[p])@.len() + 2 * cm * n <= limits.distinct_rows by {
                assert(r1[p]@.len() <= anti_rows[p]@.len() + pt * n);
                assert(anti_rows[p]@.len() <= primary_rows[p]@.len() + memberships@.len() * positions@.len());
                assert(primary_rows[p]@.len() + (memberships@.len() + 2 + 3 * pt + 2 * cm) * positions@.len() <= limits.distinct_rows);
                let m = memberships@.len() as int;
                assert((m + 2 + 3 * pt + 2 * cm) * n == m * n + pt * n + 2 * cm * n + 2 * pt * n + 2 * n) by (nonlinear_arith);
                assert((2 * pt + 2) * n >= 0) by (nonlinear_arith) requires pt >= 0, n >= 0;
            }
        }
    }
    plant_key_decoys(atoms, positions, slots, accesses, variables, relation_count, limits, layout, rows, active, &mut edge_marker, &mut fresh)?;
    let ghost r2 = rows@;
    proof {
        if owed {
            assert(fresh <= cm);
            assert forall|p: int| 0 <= p < r2.len() implies (#[trigger] r2[p])@.len() + 2 * pt * n <= limits.distinct_rows by {
                assert(r2[p]@.len() <= r1[p]@.len() + 2 * cm * n);
                assert(r1[p]@.len() <= anti_rows[p]@.len() + pt * n);
                assert(anti_rows[p]@.len() <= primary_rows[p]@.len() + memberships@.len() * positions@.len());
                assert(primary_rows[p]@.len() + (memberships@.len() + 2 + 3 * pt + 2 * cm) * positions@.len() <= limits.distinct_rows);
                let m = memberships@.len() as int;
                assert((m + 2 + 3 * pt + 2 * cm) * n == m * n + pt * n + 2 * cm * n + 2 * pt * n + 2 * n) by (nonlinear_arith);
                assert(2 * n >= 0);
            }
            assert(layout.fresh_base + fresh + pt * variables@.len() <= i32::MAX);
        }
    }
    let ghost marker_before = edge_marker;
    let ghost fresh_before = fresh;
    plant_second_complements(atoms, positions, slots, accesses, variables, relation_count, limits, layout, rows, active, &mut edge_marker, &mut fresh)?;
    let ghost r3 = rows@;
    proof {
        if owed {
            assert(fresh <= cm + pt * variables@.len());
            assert forall|p: int| 0 <= p < r3.len() implies (#[trigger] r3[p])@.len() + 2 * positions@.len() <= limits.distinct_rows by {
                assert(r3[p]@.len() <= r2[p]@.len() + 2 * pt * n);
                assert(r2[p]@.len() <= r1[p]@.len() + 2 * cm * n);
                assert(r1[p]@.len() <= anti_rows[p]@.len() + pt * n);
                assert(anti_rows[p]@.len() <= primary_rows[p]@.len() + memberships@.len() * positions@.len());
                assert(primary_rows[p]@.len() + (memberships@.len() + 2 + 3 * pt + 2 * cm) * positions@.len() <= limits.distinct_rows);
                let m = memberships@.len() as int;
                assert((m + 2 + 3 * pt + 2 * cm) * n == m * n + pt * n + 2 * cm * n + 2 * pt * n + 2 * n) by (nonlinear_arith);
            }
        }
    }
    let ghost marker_shared = edge_marker;
    let ghost fresh_shared = fresh;
    plant_shared_head(positions, slots, variables, existential_variables, relation_count, limits, layout, rows, active, &mut edge_marker, &mut fresh)?;
    let ghost r4 = rows@;
    assert(edge_marker == layout.edge_marker_count);
    let ghost before_witnesses = rows@;
    plant_witnesses(positions, slots, variable_count, relation_count, limits, layout, rows, active)?;
    proof {
        reveal(coverage_sets);
        let goal = coverage_sets(row_sets(start_rows), atoms@, accesses@, positions@, slots@, memberships@, names_view(variables@),
            names_view(existential_variables@), layout, limits.distinct_rows as nat, limits.planted_witnesses as int);
        assert(row_sets(start_rows).len() == relation_count);
        assert(marker_before == partial_count(accesses@, atoms@, accesses@.len()) + composite_key_total(accesses@, accesses@.len()));
        assert(fresh_before == composite_key_total(accesses@, accesses@.len()));
        assert(marker_shared == 2 * partial_count(accesses@, atoms@, accesses@.len()) + composite_key_total(accesses@, accesses@.len()));
        assert(fresh_shared == composite_key_total(accesses@, accesses@.len()) + fresh_drawn(accesses@, atoms@, names_view(variables@), accesses@.len()));
        assert(row_sets(before_witnesses) == row_sets(r4));
        assert(row_sets(rows@) == goal);
    }
    proof {
        if owed {
            lemma_witness_sets_occurrence(row_sets(before_witnesses), positions@, slots@, layout, variables@.len() as nat, limits.distinct_rows as nat,
                limits.planted_witnesses as int, 1);
            assert(before_witnesses == r4);
            assert forall|p: int, x: Seq<i32>| 0 <= p < rows@.len() && #[trigger] rows@[p]@.to_set().contains(x) implies start_rows[p]@.to_set().contains(x)
                || exists|k: int| 0 <= k < positions@.len() && positions@[k] == p && x.len() == (#[trigger] slots@[k])@.len() by {
                assert(row_sets(rows@)[p].contains(x));
                if !row_sets(before_witnesses)[p].contains(x) {
                } else if !r3[p]@.to_set().contains(x) {
                    assert(r4[p]@.to_set().contains(x));
                } else if !r2[p]@.to_set().contains(x) {
                    assert(r3[p]@.to_set().contains(x));
                } else if !r1[p]@.to_set().contains(x) {
                    assert(r2[p]@.to_set().contains(x));
                } else if !anti_rows[p]@.to_set().contains(x) {
                    assert(r1[p]@.to_set().contains(x));
                } else if !primary_rows[p]@.to_set().contains(x) {
                    assert(anti_rows[p]@.to_set().contains(x));
                } else if !start_rows[p]@.to_set().contains(x) {
                    assert(row_sets(primary_rows)[p].contains(x));
                    assert(primary[p].contains(x));
                    let k = choose|k: int| 0 <= k < positions@.len() && included(k, None, n) && positions@[k] == p
                        && x == project_spec(#[trigger] slots@[k]@, witness_values(layout, variables@.len() as nat, 0));
                    assert(x.len() == slots@[k]@.len());
                }
            }
        }
    }
    proof {
        let m1 = partial_count(accesses@, atoms@, accesses@.len()) as int;
        let m2 = m1 + composite_key_total(accesses@, accesses@.len());
        lemma_clear_additions(r4, rows@, layout, layout.edge_stride as int, layout.edge_stride as int);
        lemma_additions_from_chain(r3, r4, rows@, layout, m2, layout.edge_stride as int);
        lemma_additions_from_chain(r2, r3, rows@, layout, m2, m2);
        lemma_additions_from_chain(r1, r2, rows@, layout, m1, m2);
        assert forall|i: int| 0 <= i < accesses@.len() && (#[trigger] accesses@[i]).partial_spec(atoms@)
            && !slots_supply_key(positions@, slots@, i, accesses@[i].key_columns@) implies exists|v: Seq<i32>|
            #[trigger] missing_key(rows@, positions@, slots@, i, accesses@[i].key_columns@, v)
                && edge_keyed(v, slots@, i, accesses@[i].key_columns@, layout) by {
            let v = choose|v: Seq<i32>|
                #[trigger] missing_key(r1, positions@, slots@, i, accesses@[i].key_columns@, v)
                    && edge_keyed(v, slots@, i, accesses@[i].key_columns@, layout)
                    && edge_marker_of(v[slots@[i]@[accesses@[i].key_columns@[0] as int] as int] as int, layout) < m1;
            lemma_missing_key_survives(r1, rows@, positions@, slots@, i, accesses@[i].key_columns@, v, layout, m1);
        }
        assert forall|q: int, j: int| 0 <= q < accesses@.len() && 0 <= j < accesses@[q].key_columns@.len() && accesses@[q].key_columns@.len() >= 2
            implies #[trigger] decoy_survived(rows@, positions@, slots@, accesses@, layout, q, j) by {
            assert(decoy_planted(r2, positions@, slots@, accesses@, layout, q, j, m2));
            let v = choose|v: Seq<i32>|
                #[trigger] near_miss(r2, positions@, slots@, q, accesses@[q].key_columns@[j] as int, v)
                    && edge_row(v, slots@, q, layout)
                    && edge_marker_of(v[slots@[q]@[0] as int] as int, layout) < m2;
            lemma_near_miss_survives(r2, rows@, positions@, slots@, q, accesses@[q].key_columns@[j] as int, v, layout, m2);
            assert(near_miss(rows@, positions@, slots@, q, accesses@[q].key_columns@[j] as int, v));
        }
    }
    proof {
        let (lo, hi) = (layout.anti_base as int, layout.edge_base as int);
        lemma_additions_chain(anti_rows, r1, r2, lo, hi);
        lemma_additions_chain(anti_rows, r2, r3, lo, hi);
        lemma_additions_chain(anti_rows, r3, r4, lo, hi);
        lemma_additions_chain(anti_rows, r4, rows@, lo, hi);
        assert(grows(anti_rows, rows@));
        assert forall|j: int| 0 <= j < memberships@.len() implies #[trigger] anti_witnessed(rows@, positions@, slots@, memberships@, layout, variables@.len() as int, j) by {
            assert(anti_witnessed(anti_rows, positions@, slots@, memberships@, layout, variables@.len() as int, j));
            let anti = choose|v: Seq<i32>| anti_assignment(v, layout, variables@.len() as int, j) && #[trigger] left_out(anti_rows, positions@, slots@, memberships@[j] as int, v);
            let m = memberships@[j] as int;
            let pm = positions@[m] as int;
            let omitted = project_spec(slots@[m]@, anti);
            assert forall|k: int| 0 <= k < positions@.len() && k != m implies rows@[positions@[k] as int]@.to_set().contains(#[trigger] project_spec(slots@[k]@, anti)) by {
                assert(anti_rows[positions@[k] as int]@.to_set().subset_of(rows@[positions@[k] as int]@.to_set()));
            }
            if slots@[m]@.len() > 0 && rows@[pm]@.to_set().contains(omitted) {
                assert(!anti_rows[pm]@.to_set().contains(omitted));
                assert(avoids_range(omitted, lo, hi));
                let s0 = slots@[m]@[0] as int;
                assert(omitted[0] == anti[s0]);
                lemma_planted_value_grows(lo, layout.anti_stride as int, 0, s0, j);
                lemma_assignment_below(anti, lo, layout.anti_stride as int, j, variables@.len() as int, hi, 0x1_0000_0000);
                assert(anti[s0] < hi);
            }
            assert(left_out(rows@, positions@, slots@, m, anti));
        }
        assert(grows(primary_rows, rows@));
        assert forall|k: int| 0 <= k < positions@.len() implies rows@[positions@[k] as int]@.to_set().contains(#[trigger] project_spec(slots@[k]@, values)) by {
            assert(primary_rows[positions@[k] as int]@.to_set().contains(project_spec(slots@[k]@, values)));
            assert(primary_rows[positions@[k] as int]@.to_set().subset_of(rows@[positions@[k] as int]@.to_set()));
        }
        assert(witnessed(rows@, positions@, slots@, values));
        if existential_variables@.len() > 0 {
            let (first, second) = choose|first: Seq<i32>, second: Seq<i32>|
                #[trigger] shared_head_pair(r4, positions@, slots@, names_view(variables@), names_view(existential_variables@), first, second);
            assert forall|k: int| 0 <= k < positions@.len() implies rows@[positions@[k] as int]@.to_set().contains(#[trigger] project_spec(slots@[k]@, first)) by {
                assert(r4[positions@[k] as int]@.to_set().contains(project_spec(slots@[k]@, first)));
                assert(r4[positions@[k] as int]@.to_set().subset_of(rows@[positions@[k] as int]@.to_set()));
            }
            assert forall|k: int| 0 <= k < positions@.len() implies rows@[positions@[k] as int]@.to_set().contains(#[trigger] project_spec(slots@[k]@, second)) by {
                assert(r4[positions@[k] as int]@.to_set().contains(project_spec(slots@[k]@, second)));
                assert(r4[positions@[k] as int]@.to_set().subset_of(rows@[positions@[k] as int]@.to_set()));
            }
            assert(shared_head_pair(rows@, positions@, slots@, names_view(variables@), names_view(existential_variables@), first, second));
        }
        assert(grows(r3, rows@));
        assert forall|i: int| 0 <= i < accesses@.len() && (#[trigger] accesses@[i]).partial_spec(atoms@) implies exists|f: Seq<i32>, g: Seq<i32>|
            #[trigger] complement_pair(rows@, positions@, slots@, names_view(variables@), names_view(accesses@[i].bound_variables@), f, g) by {
            let (f, g) = choose|f: Seq<i32>, g: Seq<i32>|
                #[trigger] complement_pair(r3, positions@, slots@, names_view(variables@), names_view(accesses@[i].bound_variables@), f, g);
            lemma_witnessed_grows(r3, rows@, positions@, slots@, f);
            lemma_witnessed_grows(r3, rows@, positions@, slots@, g);
            assert(complement_pair(rows@, positions@, slots@, names_view(variables@), names_view(accesses@[i].bound_variables@), f, g));
        }
    }
    Ok(())
}

/// The width of the disjoint value range of one noise column.
pub const NOISE_DOMAIN_WIDTH: u64 = 0x10_0000;

/// Every noise column fits below zero: `columns` disjoint ranges of
/// `NOISE_DOMAIN_WIDTH` values, starting at `i32::MIN`.
pub open spec fn noise_space_fits(columns: int) -> bool {
    i32::MIN + columns * NOISE_DOMAIN_WIDTH < 0
}

/// Rejects a schema with more columns than disjoint negative noise ranges.
pub fn ensure_noise_space(columns: usize) -> (r: Result<(), GenerateError>)
    ensures
        r is Ok <==> noise_space_fits(columns as int),
        r matches Err(e) ==> (e matches GenerateError::TooManyColumns(c) && c == columns),
{
    if columns >= 2048 {
        assert(columns * NOISE_DOMAIN_WIDTH >= 2048 * NOISE_DOMAIN_WIDTH) by (nonlinear_arith)
            requires columns >= 2048;
        return Err(GenerateError::TooManyColumns(columns));
    }
    assert(columns * NOISE_DOMAIN_WIDTH <= 2047 * NOISE_DOMAIN_WIDTH) by (nonlinear_arith)
        requires columns <= 2047;
    Ok(())
}

/// One noise column: a permutation of its own negative value range.
pub struct NoiseColumn {
    pub base: i64,
    pub multiplier: u64,
    pub offset: u64,
}

/// The noise value of row number `row`.
pub open spec fn noise_value(column: NoiseColumn, row: u64) -> int {
    column.base + ((row.wrapping_mul(column.multiplier).wrapping_add(column.offset)) & (NOISE_DOMAIN_WIDTH - 1) as u64)
}

impl NoiseColumn {
    /// The column's range lies inside `i32` and below zero.
    pub open spec fn fits(&self) -> bool {
        &&& i32::MIN <= self.base
        &&& self.base + NOISE_DOMAIN_WIDTH - 1 < 0
    }

    /// The column for noise namespace `namespace`, with a random odd
    /// multiplier and random offset drawn from `rng`.
    pub fn new(namespace: usize, rng: &mut SplitMix64) -> (r: Result<Self, GenerateError>)
        requires
            namespace * NOISE_DOMAIN_WIDTH <= i64::MAX,
            namespace < usize::MAX,
        ensures
            r is Ok <==> i32::MIN + namespace * NOISE_DOMAIN_WIDTH + NOISE_DOMAIN_WIDTH - 1 < 0,
            r matches Ok(c) ==> c.fits() && c.base == i32::MIN + namespace * NOISE_DOMAIN_WIDTH && c.multiplier % 2 == 1
                && c.multiplier < NOISE_DOMAIN_WIDTH && c.offset < NOISE_DOMAIN_WIDTH,
            r matches Ok(_) ==> final(rng)@ == old(rng)@.wrapping_add(splitmix_gamma()).wrapping_add(splitmix_gamma()),
            r matches Ok(c) ==> c.multiplier == (splitmix_output(old(rng)@.wrapping_add(splitmix_gamma())) | 1u64) & 0xF_FFFFu64
                && c.offset == splitmix_output(final(rng)@) & 0xF_FFFFu64,
            r matches Err(e) ==> (e matches GenerateError::TooManyColumns(c) && c == namespace + 1),
    {
        assert(namespace <= i64::MAX) by (nonlinear_arith)
            requires namespace * NOISE_DOMAIN_WIDTH <= i64::MAX, namespace >= 0;
        let base: i64 = i32::MIN as i64 + (namespace as i64) * (NOISE_DOMAIN_WIDTH as i64);
        let end: i64 = base + NOISE_DOMAIN_WIDTH as i64 - 1;
        if end >= 0 {
            return Err(GenerateError::TooManyColumns(namespace + 1));
        }
        let drawn = rng.next_u64();
        let multiplier = (drawn | 1) & (NOISE_DOMAIN_WIDTH - 1);
        let drawn_offset = rng.next_u64();
        let offset = drawn_offset & (NOISE_DOMAIN_WIDTH - 1);
        assert(multiplier % 2 == 1 && multiplier < 0x10_0000) by (bit_vector)
            requires multiplier == (drawn | 1) & 0xF_FFFFu64;
        assert(offset < 0x10_0000) by (bit_vector)
            requires offset == drawn_offset & 0xF_FFFFu64;
        Ok(NoiseColumn { base, multiplier, offset })
    }

    /// The noise value of row number `row`.
    pub fn value(&self, row: usize) -> (r: i32)
        requires
            self.fits(),
        ensures
            r == noise_value(*self, row as u64),
            r < 0,
    {
        let mixed = (row as u64).wrapping_mul(self.multiplier).wrapping_add(self.offset);
        let permuted = mixed & (NOISE_DOMAIN_WIDTH - 1);
        assert(permuted < 0x10_0000) by (bit_vector)
            requires permuted == mixed & 0xF_FFFFu64;
        (self.base + permuted as i64) as i32
    }
}

/// Two to the power `k`.
pub open spec fn two_pow(k: nat) -> int
    decreases k,
{
    if k == 0 {
        1
    } else {
        2 * two_pow((k - 1) as nat)
    }
}

proof fn lemma_two_pow_positive(k: nat)
    ensures
        two_pow(k) >= 1,
    decreases k,
{
    if k > 0 {
        lemma_two_pow_positive((k - 1) as nat);
    }
}

/// An odd factor leaves divisibility by a power of two unchanged.
proof fn lemma_odd_factor(d: int, m: int, k: nat)
    requires
        m % 2 == 1,
        (d * m) % two_pow(k) == 0,
    ensures
        d % two_pow(k) == 0,
    decreases k,
{
    if k > 0 {
        let p = two_pow((k - 1) as nat);
        lemma_two_pow_positive((k - 1) as nat);
        assert(two_pow(k) == 2 * p);
        let q = (d * m) / (2 * p);
        vstd::arithmetic::div_mod::lemma_fundamental_div_mod(d * m, 2 * p);
        let dm = d * m;
        assert(dm == 2 * p * q) by (nonlinear_arith)
            requires dm == (2 * p) * q + 0, dm == d * m;
        let t = d / 2;
        let rd = d % 2;
        vstd::arithmetic::div_mod::lemma_fundamental_div_mod(d, 2);
        let s = m / 2;
        vstd::arithmetic::div_mod::lemma_fundamental_div_mod(m, 2);
        if rd == 1 {
            let ts = t * s;
            let pq = p * q;
            assert(d * m == 4 * ts + 2 * t + 2 * s + 1) by (nonlinear_arith)
                requires d == 2 * t + 1, m == 2 * s + 1, ts == t * s;
            assert(2 * p * q == 2 * pq) by (nonlinear_arith)
                requires pq == p * q;
            assert(false);
        }
        assert(d == 2 * t);
        let tm = t * m;
        assert(tm == p * q) by (nonlinear_arith)
            requires d == 2 * t, d * m == 2 * p * q, tm == t * m;
        vstd::arithmetic::div_mod::lemma_fundamental_div_mod_converse_mod(tm, p, q, 0);
        lemma_odd_factor(t, m, (k - 1) as nat);
        let u = t / p;
        vstd::arithmetic::div_mod::lemma_fundamental_div_mod(t, p);
        assert(d == u * (2 * p) + 0) by (nonlinear_arith)
            requires d == 2 * t, t == p * u + 0;
        vstd::arithmetic::div_mod::lemma_fundamental_div_mod_converse_mod(d, 2 * p, u, 0);
    }
}

proof fn lemma_low_bits(x: u64)
    ensures
        x & 0xF_FFFFu64 == x % 0x10_0000,
{
    assert(x & 0xF_FFFFu64 == x % 0x10_0000) by (bit_vector);
}

/// The first value of the range of noise namespace `namespace`.
pub open spec fn noise_base(namespace: int) -> int {
    i32::MIN + namespace * NOISE_DOMAIN_WIDTH
}

/// Column `c` of `x` lies in the range of namespace `first + c`.
pub open spec fn in_noise_domain(x: Seq<i32>, first: int) -> bool {
    forall|c: int| 0 <= c < x.len() ==> noise_base(first + c) <= #[trigger] x[c] < noise_base(first + c) + NOISE_DOMAIN_WIDTH
}

/// A noise value lies in its column's range.
proof fn lemma_noise_value_range(column: NoiseColumn, row: u64)
    ensures
        column.base <= noise_value(column, row) < column.base + NOISE_DOMAIN_WIDTH,
{
    let x = row.wrapping_mul(column.multiplier).wrapping_add(column.offset);
    assert(x & 0xF_FFFFu64 <= 0xF_FFFFu64) by (bit_vector);
}

/// The noise value of a row number below the domain width, computed
/// without wrapping.
proof fn lemma_noise_value_exact(column: NoiseColumn, row: u64)
    requires
        column.multiplier < NOISE_DOMAIN_WIDTH,
        column.offset < NOISE_DOMAIN_WIDTH,
        row < NOISE_DOMAIN_WIDTH,
    ensures
        noise_value(column, row) == column.base + (row * column.multiplier + column.offset) % (NOISE_DOMAIN_WIDTH as int),
{
    let m = column.multiplier;
    assert(row * m < 0x100_0000_0000) by (nonlinear_arith)
        requires row < 0x10_0000, m < 0x10_0000;
    let x = row.wrapping_mul(m).wrapping_add(column.offset);
    assert(x == row * m + column.offset);
    lemma_low_bits(x);
}

/// Distinct row numbers below the domain width get distinct noise values
/// in a column with an odd multiplier.
proof fn lemma_noise_injective(column: NoiseColumn, a: u64, b: u64)
    requires
        column.multiplier % 2 == 1,
        column.multiplier < NOISE_DOMAIN_WIDTH,
        column.offset < NOISE_DOMAIN_WIDTH,
        a < NOISE_DOMAIN_WIDTH,
        b < NOISE_DOMAIN_WIDTH,
        a != b,
    ensures
        noise_value(column, a) != noise_value(column, b),
    decreases (if a < b { 1int } else { 0int }),
{
    if a < b {
        lemma_noise_injective(column, b, a);
    } else {
        lemma_noise_value_exact(column, a);
        lemma_noise_value_exact(column, b);
        let w = NOISE_DOMAIN_WIDTH as int;
        let m = column.multiplier as int;
        let x = a * m + column.offset;
        let y = b * m + column.offset;
        if x % w == y % w {
            vstd::arithmetic::div_mod::lemma_fundamental_div_mod(x, w);
            vstd::arithmetic::div_mod::lemma_fundamental_div_mod(y, w);
            let d = a - b;
            let dm = d * m;
            assert(dm == x - y) by (nonlinear_arith)
                requires dm == d * m, d == a - b, x == a * m + column.offset, y == b * m + column.offset;
            assert(dm == (x / w - y / w) * w + 0) by (nonlinear_arith)
                requires dm == x - y, x == w * (x / w) + x % w, y == w * (y / w) + y % w, x % w == y % w;
            vstd::arithmetic::div_mod::lemma_fundamental_div_mod_converse_mod(dm, w, x / w - y / w, 0);
            assert(two_pow(20) == 0x10_0000) by {
                reveal_with_fuel(two_pow, 21);
            }
            lemma_odd_factor(d, m, 20);
            assert(d % w == d);
        }
    }
}

/// The noise row of row number `row` over the given columns.
pub open spec fn noise_row(columns: Seq<NoiseColumn>, row: u64) -> Seq<i32> {
    columns.map_values(|c: NoiseColumn| noise_value(c, row) as i32)
}

/// Every value of the row is negative: it is noise, never a planted value.
pub open spec fn negative_row(row: Seq<i32>) -> bool {
    forall|i: int| 0 <= i < row.len() ==> #[trigger] row[i] < 0
}

/// Total declared columns, saturating at the largest `usize`.
pub open spec fn total_columns(inputs: Seq<crate::model::RelationDecl>, upto: nat) -> nat
    decreases upto,
{
    if upto == 0 {
        0
    } else {
        let t = total_columns(inputs, (upto - 1) as nat) + inputs[upto - 1].arity as nat;
        if t > usize::MAX { usize::MAX as nat } else { t }
    }
}

proof fn lemma_total_columns_exact(inputs: Seq<crate::model::RelationDecl>, k: nat, n: nat)
    requires
        k < n <= inputs.len(),
        total_columns(inputs, n) < usize::MAX,
    ensures
        total_columns(inputs, k + 1) == total_columns(inputs, k) + inputs[k as int].arity,
        total_columns(inputs, k + 1) <= total_columns(inputs, n),
    decreases n,
{
    if k + 1 < n {
        lemma_total_columns_exact(inputs, k, (n - 1) as nat);
    }
}

/// The noise row of row number `row`.
fn noise_row_of(columns: &Vec<NoiseColumn>, row: usize) -> (r: Vec<i32>)
    requires
        forall|c: int| 0 <= c < columns@.len() ==> (#[trigger] columns@[c]).fits(),
    ensures
        r@ == noise_row(columns@, row as u64),
        negative_row(r@),
{
    let mut out: Vec<i32> = Vec::new();
    for c in 0..columns.len()
        invariant
            forall|d: int| 0 <= d < columns@.len() ==> (#[trigger] columns@[d]).fits(),
            out@ == noise_row(columns@.take(c as int), row as u64),
            negative_row(out@),
    {
        let v = columns[c].value(row);
        out.push(v);
        assert(noise_row(columns@.take(c + 1), row as u64) =~= noise_row(columns@.take(c as int), row as u64).push(v));
    }
    assert(columns@.take(columns@.len() as int) == columns@);
    out
}

/// `x` is the noise row of a row number below `n`.
pub open spec fn noise_before(columns: Seq<NoiseColumn>, x: Seq<i32>, n: int) -> bool {
    exists|k: u64| k < n && x == #[trigger] noise_row(columns, k)
}

/// A column whose values permute its range: odd multiplier, offset in range.
pub open spec fn permuting(column: NoiseColumn) -> bool {
    &&& column.fits()
    &&& column.multiplier % 2 == 1
    &&& column.multiplier < NOISE_DOMAIN_WIDTH
    &&& column.offset < NOISE_DOMAIN_WIDTH
}

/// Noise rows of distinct row numbers below the domain width differ in
/// their first column.
proof fn lemma_noise_rows_differ(columns: Seq<NoiseColumn>, a: u64, b: u64)
    requires
        columns.len() > 0,
        permuting(columns[0]),
        a < NOISE_DOMAIN_WIDTH,
        b < NOISE_DOMAIN_WIDTH,
        a != b,
    ensures
        noise_row(columns, a) != noise_row(columns, b),
{
    let c = columns[0];
    lemma_noise_injective(c, a, b);
    lemma_noise_value_exact(c, a);
    lemma_noise_value_exact(c, b);
    assert(noise_row(columns, a)[0] == noise_value(c, a) as i32);
    assert(noise_row(columns, b)[0] == noise_value(c, b) as i32);
}

/// The noise column of namespace `namespace` whose two draws follow
/// generator state `state`.
pub open spec fn noise_column(namespace: int, state: u64) -> NoiseColumn {
    NoiseColumn {
        base: (i32::MIN + namespace * NOISE_DOMAIN_WIDTH) as i64,
        multiplier: (splitmix_output(state.wrapping_add(splitmix_gamma())) | 1u64) & 0xF_FFFFu64,
        offset: splitmix_output(state.wrapping_add(splitmix_gamma()).wrapping_add(splitmix_gamma())) & 0xF_FFFFu64,
    }
}

/// The noise columns of input `p`, drawn in column order from `state` on.
#[verifier::opaque]
pub open spec fn noise_columns(inputs: Seq<crate::model::RelationDecl>, state: u64, p: int) -> Seq<NoiseColumn> {
    let first = total_columns(inputs, p as nat) as int;
    Seq::new(inputs[p].arity as nat, |c: int| noise_column(first + c, advanced(state, (2 * (first + c)) as nat)))
}

/// The noise rows numbered below `count`.
pub open spec fn noise_set(columns: Seq<NoiseColumn>, count: int) -> Set<Seq<i32>> {
    Set::new(|x: Seq<i32>| exists|k: u64| k < count && x == #[trigger] noise_row(columns, k))
}

/// An input's rows after noise fills it up to `distinct_rows`.
#[verifier::opaque]
pub open spec fn noise_filled(planted: Set<Seq<i32>>, len: nat, columns: Seq<NoiseColumn>, distinct_rows: nat) -> Set<Seq<i32>> {
    planted.union(noise_set(columns, if len < distinct_rows { distinct_rows - len } else { 0 }))
}

/// Brings every input to the row target with noise rows, each drawn from its
/// own disjoint negative columns. Noise rows of one input are pairwise
/// distinct and never planted rows, so an input with columns ends with
/// exactly the target of distinct rows unless planting already passed it.
fn fill_noise(
    inputs: &Vec<crate::model::RelationDecl>,
    limits: Limits,
    rng: &mut SplitMix64,
    rows: &mut Vec<RowSet>,
) -> (r: Result<(), GenerateError>)
    requires
        all_wf(old(rows)@),
        positive_sets(old(rows)@),
        old(rows)@.len() == inputs@.len(),
        limits.distinct_rows <= NOISE_DOMAIN_WIDTH,
    ensures
        r is Ok <==> noise_space_fits(total_columns(inputs@, inputs@.len()) as int),
        r matches Err(e) ==> e matches GenerateError::TooManyColumns(_),
        r is Ok ==> {
            &&& all_wf(final(rows)@)
            &&& final(rows)@.len() == old(rows)@.len()
            &&& forall|p: int| 0 <= p < old(rows)@.len() ==> (#[trigger] old(rows)@[p])@.to_set().subset_of(final(rows)@[p]@.to_set())
            &&& forall|p: int, x: Seq<i32>| 0 <= p < old(rows)@.len() && #[trigger] final(rows)@[p]@.to_set().contains(x) && !old(rows)@[p]@.to_set().contains(x) ==> negative_row(x) && x.len() == inputs@[p].arity
            &&& forall|p: int| 0 <= p < old(rows)@.len() && inputs@[p].arity > 0 ==> (#[trigger] final(rows)@[p])@.len() == (if old(rows)@[p]@.len() < limits.distinct_rows {
                limits.distinct_rows as int
            } else {
                old(rows)@[p]@.len() as int
            })
            &&& forall|p: int, x: Seq<i32>| 0 <= p < old(rows)@.len() && #[trigger] final(rows)@[p]@.to_set().contains(x) && !old(rows)@[p]@.to_set().contains(x)
                ==> in_noise_domain(x, total_columns(inputs@, p as nat) as int)
            &&& forall|p: int| 0 <= p < old(rows)@.len() ==> (#[trigger] final(rows)@[p])@.to_set() == noise_filled(old(rows)@[p]@.to_set(),
                old(rows)@[p]@.len(), noise_columns(inputs@, old(rng)@, p), limits.distinct_rows as nat)
            &&& final(rng)@ == advanced(old(rng)@, 2 * total_columns(inputs@, inputs@.len()))
        },
{
    reveal(noise_filled);
    let mut total_columns_count: usize = 0;
    for i in 0..inputs.len()
        invariant
            total_columns_count == total_columns(inputs@, i as nat),
    {
        total_columns_count = total_columns_count.saturating_add(inputs[i].arity);
    }
    ensure_noise_space(total_columns_count)?;
    assert(total_columns_count < 2048) by (nonlinear_arith)
        requires -0x8000_0000 + total_columns_count * 0x10_0000 < 0, total_columns_count >= 0;
    let ghost start = rows@;
    let ghost start_state = rng@;
    let mut next_namespace: usize = 0;
    for relation_index in 0..inputs.len()
        invariant
            rows@.len() == start.len(),
            start.len() == inputs@.len(),
            all_wf(rows@),
            positive_sets(start),
            limits.distinct_rows <= NOISE_DOMAIN_WIDTH,
            noise_space_fits(total_columns(inputs@, inputs@.len()) as int),
            total_columns(inputs@, inputs@.len()) < 2048,
            next_namespace == total_columns(inputs@, relation_index as nat),
            rng@ == advanced(start_state, (2 * next_namespace) as nat),
            forall|p: int| 0 <= p < relation_index ==> (#[trigger] rows@[p])@.to_set() == noise_filled(start[p]@.to_set(), start[p]@.len(),
                noise_columns(inputs@, start_state, p), limits.distinct_rows as nat),
            forall|p: int| 0 <= p < start.len() ==> (#[trigger] start[p])@.to_set().subset_of(rows@[p]@.to_set()),
            forall|p: int, x: Seq<i32>| 0 <= p < start.len() && #[trigger] rows@[p]@.to_set().contains(x) && !start[p]@.to_set().contains(x) ==> negative_row(x) && x.len() == inputs@[p].arity,
            forall|p: int| relation_index <= p < start.len() ==> #[trigger] rows@[p] == start[p],
            forall|p: int, x: Seq<i32>| 0 <= p < start.len() && #[trigger] rows@[p]@.to_set().contains(x) && !start[p]@.to_set().contains(x)
                ==> in_noise_domain(x, total_columns(inputs@, p as nat) as int),
            forall|p: int| 0 <= p < relation_index && inputs@[p].arity > 0 ==> (#[trigger] rows@[p])@.len() == (if start[p]@.len() < limits.distinct_rows {
                limits.distinct_rows as int
            } else {
                start[p]@.len() as int
            }),
    {
        let arity = inputs[relation_index].arity;
        proof {
            lemma_total_columns_exact(inputs@, relation_index as nat, inputs@.len());
        }
        let ghost section_start = next_namespace;
        let mut parameters: Vec<NoiseColumn> = Vec::new();
        for c in 0..arity
            invariant
                parameters@.len() == c,
                forall|d: int| 0 <= d < c ==> permuting(#[trigger] parameters@[d]),
                forall|d: int| 0 <= d < c ==> (#[trigger] parameters@[d]).base == noise_base(section_start + d),
                next_namespace == section_start + c,
                section_start + arity <= total_columns(inputs@, inputs@.len()),
                total_columns(inputs@, inputs@.len()) < 2048,
                rng@ == advanced(start_state, (2 * (section_start + c)) as nat),
                forall|d: int| 0 <= d < c ==> #[trigger] parameters@[d] == noise_column(section_start + d, advanced(start_state, (2 * (section_start + d)) as nat)),
        {
            let namespace = next_namespace;
            next_namespace += 1;
            assert(namespace * NOISE_DOMAIN_WIDTH <= 2046 * NOISE_DOMAIN_WIDTH) by (nonlinear_arith)
                requires namespace <= 2046;
            let ghost before_state = rng@;
            let column = NoiseColumn::new(namespace, rng)?;
            proof {
                splitmix_steps(start_state, (2 * (section_start + c)) as nat);
                splitmix_steps(start_state, (2 * (section_start + c) + 1) as nat);
                assert(column == noise_column(namespace as int, before_state));
            }
            parameters.push(column);
        }
        proof {
            reveal(noise_columns);
            assert(parameters@ =~= noise_columns(inputs@, start_state, relation_index as int));
        }
        let noise_needed = limits.distinct_rows.saturating_sub(rows[relation_index].len());
        let mut target = RowSet::new();
        std::mem::swap(&mut target, &mut rows[relation_index]);
        let ghost target_start = target@.to_set();
        let ghost start_len = target@.len();
        assert(target == start[relation_index as int]);
        for row_number in 0..noise_needed
            invariant
                target.wf(),
                parameters@.len() == arity,
                forall|d: int| 0 <= d < arity ==> permuting(#[trigger] parameters@[d]),
                target_start.subset_of(target@.to_set()),
                positive_set(target_start),
                noise_needed <= NOISE_DOMAIN_WIDTH,
                forall|x: Seq<i32>| #[trigger] target@.to_set().contains(x) && !target_start.contains(x) ==> negative_row(x) && x.len() == arity,
                forall|x: Seq<i32>| #[trigger] target@.to_set().contains(x) && !target_start.contains(x) ==> noise_before(parameters@, x, row_number as int),
                forall|d: int| 0 <= d < arity ==> (#[trigger] parameters@[d]).base == noise_base(section_start + d),
                forall|x: Seq<i32>| #[trigger] target@.to_set().contains(x) && !target_start.contains(x) ==> in_noise_domain(x, section_start as int),
                arity > 0 ==> target@.len() == start_len + row_number,
                target@.to_set() == target_start.union(noise_set(parameters@, row_number as int)),
        {
            let noise = noise_row_of(&parameters, row_number);
            let ghost before = target@;
            proof {
                assert forall|c: int| 0 <= c < noise@.len() implies noise_base(section_start + c) <= #[trigger] noise@[c] < noise_base(section_start + c) + NOISE_DOMAIN_WIDTH by {
                    lemma_noise_value_range(parameters@[c], row_number as u64);
                }
            }
            proof {
                if arity > 0 && before.contains(noise@) {
                    assert(before.to_set().contains(noise@));
                    assert(noise@.len() == arity);
                    if target_start.contains(noise@) {
                        assert(positive_row(noise@));
                        assert(noise@[0] > 0);
                        assert(noise@[0] < 0);
                    } else {
                        let k = choose|k: u64| k < row_number && noise@ == #[trigger] noise_row(parameters@, k);
                        lemma_noise_rows_differ(parameters@, k, row_number as u64);
                    }
                }
            }
            target.insert(noise);
            proof {
                assert(target@.to_set() =~= target_start.union(noise_set(parameters@, row_number + 1))) by {
                    assert forall|x: Seq<i32>| noise_set(parameters@, row_number + 1).contains(x) implies target@.to_set().contains(x) by {
                        let k = choose|k: u64| k < row_number + 1 && x == #[trigger] noise_row(parameters@, k);
                        if k < row_number {
                            assert(noise_set(parameters@, row_number as int).contains(x));
                        }
                    }
                    assert forall|x: Seq<i32>| target@.to_set().contains(x) && !target_start.contains(x) && x != noise@
                        implies noise_set(parameters@, row_number + 1).contains(x) by {
                        assert(before.to_set().contains(x));
                        let k = choose|k: u64| k < row_number && x == #[trigger] noise_row(parameters@, k);
                        assert(noise_row(parameters@, k) == x);
                    }
                    assert(noise_row(parameters@, row_number as u64) == noise@);
                }
            }
            proof {
                assert forall|x: Seq<i32>| #[trigger] target@.to_set().contains(x) && !target_start.contains(x) implies noise_before(parameters@, x, row_number + 1) by {
                    if x == noise@ {
                        assert(x == noise_row(parameters@, row_number as u64));
                    } else {
                        assert(before.to_set().contains(x));
                        let k = choose|k: u64| k < row_number && x == #[trigger] noise_row(parameters@, k);
                        assert(x == noise_row(parameters@, k));
                    }
                }
            }
        }
        proof {
            reveal(noise_filled);
            assert(target_start == start[relation_index as int]@.to_set());
            assert(start_len == start[relation_index as int]@.len());
            assert(noise_needed == (if start_len < limits.distinct_rows { limits.distinct_rows - start_len } else { 0 }));
            assert(target@.to_set() == noise_filled(start[relation_index as int]@.to_set(), start[relation_index as int]@.len(),
                noise_columns(inputs@, start_state, relation_index as int), limits.distinct_rows as nat));
        }
        std::mem::swap(&mut target, &mut rows[relation_index]);
    }
    Ok(())
}

proof fn lemma_swap_multiset<A>(s: Seq<A>, i: int, j: int)
    requires
        0 <= i < j < s.len(),
    ensures
        s.update(i, s[j]).update(j, s[i]).to_multiset() == s.to_multiset(),
{
    let t = s.update(i, s[j]).update(j, s[i]);
    let a = s.take(i);
    let b = s.subrange(i + 1, j);
    let c = s.skip(j + 1);
    assert(s =~= a + seq![s[i]] + b + seq![s[j]] + c);
    assert(t =~= a + seq![s[j]] + b + seq![s[i]] + c);
    vstd::seq_lib::lemma_multiset_commutative(a + seq![s[i]] + b + seq![s[j]], c);
    vstd::seq_lib::lemma_multiset_commutative(a + seq![s[i]] + b, seq![s[j]]);
    vstd::seq_lib::lemma_multiset_commutative(a + seq![s[i]], b);
    vstd::seq_lib::lemma_multiset_commutative(a, seq![s[i]]);
    vstd::seq_lib::lemma_multiset_commutative(a + seq![s[j]] + b + seq![s[i]], c);
    vstd::seq_lib::lemma_multiset_commutative(a + seq![s[j]] + b, seq![s[i]]);
    vstd::seq_lib::lemma_multiset_commutative(a + seq![s[j]], b);
    vstd::seq_lib::lemma_multiset_commutative(a, seq![s[j]]);
    broadcast use vstd::multiset::group_multiset_axioms;
    assert(t.to_multiset() =~= s.to_multiset());
}

/// Exchanges two rows.
fn swap_rows(values: &mut Vec<Vec<i32>>, i: usize, j: usize)
    requires
        i < old(values)@.len(),
        j < old(values)@.len(),
    ensures
        final(values)@.len() == old(values)@.len(),
        final(values)@.to_multiset() == old(values)@.to_multiset(),
        final(values)@ == old(values)@.update(i as int, old(values)@[j as int]).update(j as int, old(values)@[i as int]),
{
    if i == j {
        assert(values@.update(i as int, values@[j as int]).update(j as int, values@[i as int]) =~= values@);
        return;
    }
    let ghost s = values@;
    let mut a: Vec<i32> = Vec::new();
    std::mem::swap(&mut a, &mut values[i]);
    let mut b: Vec<i32> = Vec::new();
    std::mem::swap(&mut b, &mut values[j]);
    std::mem::swap(&mut b, &mut values[i]);
    std::mem::swap(&mut a, &mut values[j]);
    proof {
        assert(values@ =~= s.update(i as int, s[j as int]).update(j as int, s[i as int]));
        if i < j {
            lemma_swap_multiset(s, i as int, j as int);
        } else {
            lemma_swap_multiset(s, j as int, i as int);
            assert(s.update(j as int, s[i as int]).update(i as int, s[j as int]) =~= s.update(i as int, s[j as int]).update(j as int, s[i as int]));
        }
    }
}

/// A Fisher-Yates shuffle driven by `rng`.
/// The Fisher-Yates steps from position `upper` down to position 1: step
/// `upper` draws the next generator output after `state` and swaps position
/// `upper` with that output modulo `upper + 1`.
pub open spec fn shuffled(values: Seq<Vec<i32>>, state: u64, upper: int) -> Seq<Vec<i32>>
    decreases upper,
{
    if upper <= 0 {
        values
    } else {
        let next = state.wrapping_add(splitmix_gamma());
        let other = (splitmix_output(next) % ((upper + 1) as u64)) as int;
        shuffled(values.update(upper, values[other]).update(other, values[upper]), next, upper - 1)
    }
}

/// The generator state after `draws` outputs from `state`.
pub open spec fn advanced(state: u64, draws: nat) -> u64
    decreases draws,
{
    if draws == 0 {
        state
    } else {
        advanced(state.wrapping_add(splitmix_gamma()), (draws - 1) as nat)
    }
}

/// SplitMix64 is a counter under a mixing function: after `draws` outputs
/// from `state` the generator stands at `state + draws * gamma` modulo
/// 2^64, so the next call of `next_u64` moves it to the state after
/// `draws + 1` outputs and returns the mix of `state + (draws + 1) * gamma`
/// modulo 2^64. Two generators made from one seed therefore yield one
/// sequence.
pub proof fn splitmix_is_a_counter(state: u64, draws: nat)
    ensures
        advanced(state, draws) as int == (state + draws * splitmix_gamma()) % 0x1_0000_0000_0000_0000int,
        advanced(state, draws + 1) == advanced(state, draws).wrapping_add(splitmix_gamma()),
        splitmix_output(advanced(state, draws).wrapping_add(splitmix_gamma()))
            == splitmix_output(((state + (draws + 1) * splitmix_gamma()) % 0x1_0000_0000_0000_0000int) as u64),
{
    splitmix_steps(state, draws);
    splitmix_steps(state, draws + 1);
}

/// The closed form of the state after `draws` outputs, and one more step.
proof fn splitmix_steps(state: u64, draws: nat)
    ensures
        advanced(state, draws) as int == (state + draws * splitmix_gamma()) % 0x1_0000_0000_0000_0000int,
        advanced(state, draws + 1) == advanced(state, draws).wrapping_add(splitmix_gamma()),
    decreases draws,
{
    let m = 0x1_0000_0000_0000_0000int;
    let g = splitmix_gamma() as int;
    let next = state.wrapping_add(splitmix_gamma());
    assert(next as int == (state + g) % m);
    if draws > 0 {
        splitmix_steps(next, (draws - 1) as nat);
        vstd::arithmetic::div_mod::lemma_add_mod_noop_right((draws - 1) * g, state + g, m);
        assert((draws - 1) * g + (state + g) == state + draws * g) by (nonlinear_arith);
        assert(advanced(state, draws + 1) == advanced(next, draws));
    } else {
        assert(state as int % m == state);
        assert(advanced(state, 1) == advanced(next, 0));
        assert(advanced(next, 0) == next);
    }
}

/// Shuffles the rows in place with the Fisher-Yates steps from the last
/// position down, drawing one generator output per step.
fn shuffle(values: &mut Vec<Vec<i32>>, rng: &mut SplitMix64)
    ensures
        final(values)@.len() == old(values)@.len(),
        final(values)@.to_multiset() == old(values)@.to_multiset(),
        final(values)@ == shuffled(old(values)@, old(rng)@, old(values)@.len() - 1),
        final(rng)@ == advanced(old(rng)@, if old(values)@.len() < 2 { 0 } else { (old(values)@.len() - 1) as nat }),
{
    let len = values.len();
    if len < 2 {
        return;
    }
    let mut upper = len - 1;
    while upper >= 1
        invariant
            values@.len() == len,
            upper < len,
            values@.to_multiset() == old(values)@.to_multiset(),
            shuffled(values@, rng@, upper as int) == shuffled(old(values)@, old(rng)@, len - 1),
            advanced(rng@, upper as nat) == advanced(old(rng)@, (len - 1) as nat),
        decreases upper,
    {
        let ghost before = values@;
        let ghost state = rng@;
        let drawn = rng.next_u64();
        let other = (drawn % (upper as u64 + 1)) as usize;
        swap_rows(values, upper, other);
        upper -= 1;
        assert(values@ == before.update(upper + 1, before[other as int]).update(other as int, before[upper + 1]));
    }
}

proof fn lemma_multiset_to_set(a: Seq<Vec<i32>>, b: Seq<Vec<i32>>)
    requires
        a.to_multiset() == b.to_multiset(),
    ensures
        crate::rows::rows_view(a).to_set() == crate::rows::rows_view(b).to_set(),
{
    broadcast use vstd::seq_lib::group_to_multiset_ensures;
    assert forall|x: Seq<i32>| crate::rows::rows_view(a).to_set().contains(x) implies crate::rows::rows_view(b).to_set().contains(x) by {
        let k = choose|k: int| 0 <= k < a.len() && a[k]@ == x;
        assert(a.contains(a[k]));
        assert(a.to_multiset().count(a[k]) > 0);
        assert(b.contains(a[k]));
        let m = choose|m: int| 0 <= m < b.len() && b[m] == a[k];
        assert(crate::rows::rows_view(b)[m] == x);
    }
    assert forall|x: Seq<i32>| crate::rows::rows_view(b).to_set().contains(x) implies crate::rows::rows_view(a).to_set().contains(x) by {
        let k = choose|k: int| 0 <= k < b.len() && b[k]@ == x;
        assert(b.contains(b[k]));
        assert(b.to_multiset().count(b[k]) > 0);
        assert(a.contains(b[k]));
        let m = choose|m: int| 0 <= m < a.len() && a[m] == b[k];
        assert(crate::rows::rows_view(a)[m] == x);
    }
    assert(crate::rows::rows_view(a).to_set() =~= crate::rows::rows_view(b).to_set());
}

/// The Fisher-Yates steps only reorder the rows.
proof fn lemma_shuffled_rows_multiset(values: Seq<Seq<i32>>, state: u64, upper: int)
    requires
        upper < values.len(),
        values.len() <= usize::MAX,
    ensures
        shuffled_rows(values, state, upper).to_multiset() == values.to_multiset(),
    decreases upper,
{
    if upper > 0 {
        let next = state.wrapping_add(splitmix_gamma());
        let m = (upper + 1) as u64;
        let x = splitmix_output(next);
        assert(x % m < m) by (nonlinear_arith)
            requires m > 0;
        let other = (x % m) as int;
        let swapped = values.update(upper, values[other]).update(other, values[upper]);
        if other < upper {
            lemma_swap_multiset(values, other, upper);
            assert(values.update(other, values[upper]).update(upper, values[other]) =~= swapped);
        } else {
            assert(swapped =~= values);
        }
        lemma_shuffled_rows_multiset(swapped, next, upper - 1);
    }
}

/// The active duplicate of an input occurs at least twice among its raw
/// rows: once as a distinct row and once more as the planted duplicate.
pub proof fn active_duplicate_occurs_twice(distinct: Seq<Seq<i32>>, duplicate: Vec<i32>, state: u64)
    requires
        distinct.contains(duplicate@),
        unshuffled_rows(distinct, Some(duplicate)).len() <= usize::MAX,
    ensures
        raw_rows_spec(distinct, Some(duplicate), state).to_multiset().count(duplicate@) >= 2,
{
    reveal(raw_rows_spec);
    broadcast use vstd::seq_lib::group_to_multiset_ensures;
    let rows = unshuffled_rows(distinct, Some(duplicate));
    let leading = leading_rows(Some(duplicate));
    let wanted = if distinct.len() / 20 >= leading.len() { (distinct.len() / 20 - leading.len()) as nat } else { 0nat };
    let picked = picked_duplicates(distinct, leading, wanted, distinct.len() as int);
    vstd::seq_lib::lemma_multiset_commutative(distinct + leading, picked);
    vstd::seq_lib::lemma_multiset_commutative(distinct, leading);
    assert(leading[0] == duplicate@);
    assert(leading.contains(duplicate@));
    assert(leading.to_multiset().count(duplicate@) >= 1);
    assert(distinct.to_multiset().count(duplicate@) >= 1);
    lemma_shuffled_rows_multiset(rows, state, rows.len() - 1);
}

/// Of a set of rows there is one least row: two markers that are both
/// least hold the same row.
pub proof fn least_marker_is_unique(first: Option<Vec<i32>>, second: Option<Vec<i32>>, set: Set<Seq<i32>>)
    requires
        least_marker(first, set),
        least_marker(second, set),
    ensures
        leading_rows(first) == leading_rows(second),
{
    match (first, second) {
        (Some(a), Some(b)) => {
            if a@ != b@ {
                crate::rows::lemma_lex_asymmetric(a@, b@);
            }
        },
        (Some(a), None) => {
            assert(set.contains(a@));
        },
        (None, Some(b)) => {
            assert(set.contains(b@));
        },
        (None, None) => {},
    }
}

/// The generator state after materializing depends on the markers only
/// through the rows they hold.
proof fn lemma_materialized_state_markers(
    sets: Seq<Seq<Seq<i32>>>,
    first: Seq<Option<Vec<i32>>>,
    second: Seq<Option<Vec<i32>>>,
    state: u64,
    upto: int,
)
    requires
        upto <= first.len(),
        first.len() == second.len(),
        forall|p: int| 0 <= p < first.len() ==> #[trigger] leading_rows(first[p]) == leading_rows(second[p]),
    ensures
        materialized_state(sets, first, state, upto) == materialized_state(sets, second, state, upto),
    decreases upto,
{
    reveal(materialized_state);
    if upto > 0 {
        lemma_materialized_state_markers(sets, first, second, state, upto - 1);
        assert(leading_rows(first[upto - 1]) == leading_rows(second[upto - 1]));
    }
}

/// Generation is reproducible: relations generated from the same planted
/// rows, with duplicate markers that hold the same rows, from the same
/// generator state, have the same raw rows in the same order.
pub proof fn generated_rows_are_reproducible(
    inputs: Seq<crate::model::RelationDecl>,
    first: Seq<crate::dataset::RelationData>,
    second: Seq<crate::dataset::RelationData>,
    planted: Seq<Set<Seq<i32>>>,
    first_markers: Seq<Option<Vec<i32>>>,
    second_markers: Seq<Option<Vec<i32>>>,
    state: u64,
    distinct_rows: nat,
    emptied: int,
)
    requires
        first_markers.len() == inputs.len(),
        second_markers.len() == inputs.len(),
        forall|p: int| 0 <= p < inputs.len() ==> #[trigger] leading_rows(first_markers[p]) == leading_rows(second_markers[p]),
        relations_generated(inputs, first, planted, first_markers, state, distinct_rows, emptied),
        relations_generated(inputs, second, planted, second_markers, state, distinct_rows, emptied),
    ensures
        first.len() == second.len(),
        forall|p: int| 0 <= p < first.len() ==> #[trigger] first[p].rows_spec() == second[p].rows_spec(),
{
    reveal(relations_generated);
    reveal(raw_rows_spec);
    let views = sorted_views(filled_sets(inputs, planted, state, distinct_rows, emptied));
    let a1 = kept_markers(first_markers, inputs.len(), emptied);
    let a2 = kept_markers(second_markers, inputs.len(), emptied);
    let drawn = advanced(state, 2 * total_columns(inputs, inputs.len()));
    assert forall|p: int| 0 <= p < inputs.len() implies #[trigger] leading_rows(a1[p]) == leading_rows(a2[p]) by {
        if p != emptied {
            assert(leading_rows(first_markers[p]) == leading_rows(second_markers[p]));
        }
    }
    assert forall|p: int| 0 <= p < first.len() implies #[trigger] first[p].rows_spec() == second[p].rows_spec() by {
        lemma_materialized_state_markers(views, a1, a2, drawn, p);
        assert(leading_rows(a1[p]) == leading_rows(a2[p]));
        assert(unshuffled_rows(views[p], a1[p]) == unshuffled_rows(views[p], a2[p]));
    }
}

/// Whether the row is among `rows`.
fn holds_row(rows: &Vec<Vec<i32>>, row: &Vec<i32>) -> (b: bool)
    ensures
        b == crate::rows::rows_view(rows@).contains(row@),
{
    for i in 0..rows.len()
        invariant
            forall|k: int| 0 <= k < i ==> rows@[k]@ != row@,
    {
        if crate::text::ints_equal(&rows[i], row) {
            assert(crate::rows::rows_view(rows@)[i as int] == row@);
            return true;
        }
    }
    proof {
        if crate::rows::rows_view(rows@).contains(row@) {
            let k = choose|k: int| 0 <= k < rows@.len() && crate::rows::rows_view(rows@)[k] == row@;
            assert(rows@[k]@ == row@);
        }
    }
    false
}

/// The Fisher-Yates steps of `shuffled`, on the rows' values.
pub open spec fn shuffled_rows(values: Seq<Seq<i32>>, state: u64, upper: int) -> Seq<Seq<i32>>
    decreases upper,
{
    if upper <= 0 {
        values
    } else {
        let next = state.wrapping_add(splitmix_gamma());
        let other = (splitmix_output(next) % ((upper + 1) as u64)) as int;
        shuffled_rows(values.update(upper, values[other]).update(other, values[upper]), next, upper - 1)
    }
}

/// `shuffled` moves the rows as `shuffled_rows` moves their values.
proof fn lemma_shuffled_rows(values: Seq<Vec<i32>>, state: u64, upper: int)
    requires
        upper < values.len(),
        values.len() <= usize::MAX,
    ensures
        crate::rows::rows_view(shuffled(values, state, upper)) == shuffled_rows(crate::rows::rows_view(values), state, upper),
    decreases upper,
{
    if upper > 0 {
        let next = state.wrapping_add(splitmix_gamma());
        let other = (splitmix_output(next) % ((upper + 1) as u64)) as int;
        let m = (upper + 1) as u64;
        let x = splitmix_output(next);
        assert(x % m < m) by (nonlinear_arith)
            requires m > 0;
        assert(0 <= other <= upper);
        let swapped = values.update(upper, values[other]).update(other, values[upper]);
        assert(crate::rows::rows_view(swapped) =~= crate::rows::rows_view(values).update(upper, crate::rows::rows_view(values)[other]).update(other,
            crate::rows::rows_view(values)[upper]));
        lemma_shuffled_rows(swapped, next, upper - 1);
    }
}

/// The extra duplicates among the first `upto` distinct rows: in order, the
/// rows that `leading` does not hold, until `wanted` are taken.
pub open spec fn picked_duplicates(distinct: Seq<Seq<i32>>, leading: Seq<Seq<i32>>, wanted: nat, upto: int) -> Seq<Seq<i32>>
    decreases upto,
{
    if upto <= 0 {
        Seq::empty()
    } else {
        let prev = picked_duplicates(distinct, leading, wanted, upto - 1);
        if prev.len() < wanted && !leading.contains(distinct[upto - 1]) {
            prev.push(distinct[upto - 1])
        } else {
            prev
        }
    }
}

/// Once `wanted` duplicates are taken, later rows add none.
proof fn lemma_picked_full(distinct: Seq<Seq<i32>>, leading: Seq<Seq<i32>>, wanted: nat, i: int, j: int)
    requires
        0 <= i <= j,
        picked_duplicates(distinct, leading, wanted, i).len() >= wanted,
    ensures
        picked_duplicates(distinct, leading, wanted, j) == picked_duplicates(distinct, leading, wanted, i),
    decreases j - i,
{
    if j > i {
        lemma_picked_full(distinct, leading, wanted, i, j - 1);
    }
}

/// The leading duplicate of an input: its active row, if any.
pub open spec fn leading_rows(active: Option<Vec<i32>>) -> Seq<Seq<i32>> {
    match active {
        Some(d) => seq![d@],
        None => Seq::empty(),
    }
}

/// The raw rows of an input before shuffling: its distinct rows in order,
/// the active duplicate, then about one duplicate per twenty rows.
pub open spec fn unshuffled_rows(distinct: Seq<Seq<i32>>, active: Option<Vec<i32>>) -> Seq<Seq<i32>> {
    let leading = leading_rows(active);
    let wanted = if distinct.len() / 20 >= leading.len() { (distinct.len() / 20 - leading.len()) as nat } else { 0nat };
    distinct + leading + picked_duplicates(distinct, leading, wanted, distinct.len() as int)
}

/// The generator outputs that shuffling `len` rows draws.
pub open spec fn shuffle_draws(len: nat) -> nat {
    if len < 2 { 0 } else { (len - 1) as nat }
}

/// The raw rows of an input drawn from generator state `state`.
#[verifier::opaque]
pub open spec fn raw_rows_spec(distinct: Seq<Seq<i32>>, active: Option<Vec<i32>>, state: u64) -> Seq<Seq<i32>> {
    let rows = unshuffled_rows(distinct, active);
    shuffled_rows(rows, state, rows.len() - 1)
}

/// The raw rows of one input: its distinct rows in order, then duplicates of
/// about one row in twenty, led by the active duplicate, all shuffled.
fn raw_rows(set: RowSet, active: Option<Vec<i32>>, rng: &mut SplitMix64) -> (r: Vec<Vec<i32>>)
    requires
        set.wf(),
        active matches Some(d) ==> set@.to_set().contains(d@),
    ensures
        crate::rows::rows_view(r@).to_set() == set@.to_set(),
        r@.len() >= set@.len(),
        active is Some ==> r@.len() > set@.len(),
        crate::rows::rows_view(r@) == raw_rows_spec(set@, active, old(rng)@),
        final(rng)@ == advanced(old(rng)@, shuffle_draws(unshuffled_rows(set@, active).len())),
{
    reveal(raw_rows_spec);
    let ghost active_view = active;
    let ghost distinct = set@;
    let ghost leading: int = if active is Some { 1 } else { 0 };
    let mut relation_rows = set.into_vec();
    let duplicate_count = relation_rows.len() / 20;
    let mut duplicates: Vec<Vec<i32>> = Vec::new();
    match active {
        Some(d) => {
            duplicates.push(d);
        },
        None => {},
    }
    let remaining = duplicate_count.saturating_sub(duplicates.len());
    let ghost leading_view = leading_rows(active_view);
    assert(crate::rows::rows_view(duplicates@) =~= leading_view);
    let ghost wanted: nat = if distinct.len() / 20 >= leading_view.len() { (distinct.len() / 20 - leading_view.len()) as nat } else { 0nat };
    assert(remaining == wanted);
    let mut additional: Vec<Vec<i32>> = Vec::new();
    let mut i: usize = 0;
    while i < relation_rows.len() && additional.len() < remaining
        invariant
            crate::rows::rows_view(relation_rows@) == distinct,
            i <= relation_rows@.len(),
            duplicates@.len() == leading,
            forall|k: int| 0 <= k < additional@.len() ==> distinct.to_set().contains(#[trigger] additional@[k]@),
            crate::rows::rows_view(duplicates@) == leading_view,
            crate::rows::rows_view(additional@) == picked_duplicates(distinct, leading_view, wanted, i as int),
            remaining == wanted,
        decreases relation_rows@.len() - i,
    {
        if !holds_row(&duplicates, &relation_rows[i]) {
            let row = crate::dataset::clone_row(&relation_rows[i]);
            assert(distinct[i as int] == relation_rows@[i as int]@);
            additional.push(row);
        }
        proof {
            assert(crate::rows::rows_view(additional@) =~= picked_duplicates(distinct, leading_view, wanted, i + 1));
        }
        i += 1;
    }
    proof {
        if i < relation_rows.len() {
            lemma_picked_full(distinct, leading_view, wanted, i as int, distinct.len() as int);
        }
        assert(crate::rows::rows_view(additional@) == picked_duplicates(distinct, leading_view, wanted, distinct.len() as int));
    }
    for k in 0..additional.len()
        invariant
            duplicates@.len() >= leading,
            forall|m: int| 0 <= m < duplicates@.len() ==> distinct.to_set().contains(#[trigger] duplicates@[m]@),
            forall|m: int| 0 <= m < additional@.len() ==> distinct.to_set().contains(#[trigger] additional@[m]@),
            crate::rows::rows_view(duplicates@) == leading_view + crate::rows::rows_view(additional@).take(k as int),
    {
        let ghost before = crate::rows::rows_view(duplicates@);
        duplicates.push(crate::dataset::clone_row(&additional[k]));
        proof {
            assert(crate::rows::rows_view(duplicates@) =~= before.push(additional@[k as int]@));
            assert(crate::rows::rows_view(additional@).take(k + 1) =~= crate::rows::rows_view(additional@).take(k as int).push(additional@[k as int]@));
            assert(crate::rows::rows_view(duplicates@) =~= leading_view + crate::rows::rows_view(additional@).take(k + 1));
        }
    }
    assert(crate::rows::rows_view(additional@).take(additional@.len() as int) =~= crate::rows::rows_view(additional@));
    let ghost base = relation_rows@;
    assert(base.len() == distinct.len());
    for k in 0..duplicates.len()
        invariant
            crate::rows::rows_view(base) == distinct,
            base.len() == distinct.len(),
            duplicates@.len() >= leading,
            relation_rows@.len() == base.len() + k,
            forall|m: int| 0 <= m < base.len() ==> #[trigger] relation_rows@[m] == base[m],
            forall|m: int| base.len() <= m < relation_rows@.len() ==> distinct.to_set().contains(#[trigger] relation_rows@[m]@),
            forall|m: int| 0 <= m < duplicates@.len() ==> distinct.to_set().contains(#[trigger] duplicates@[m]@),
            crate::rows::rows_view(relation_rows@) == distinct + crate::rows::rows_view(duplicates@).take(k as int),
    {
        let ghost before = crate::rows::rows_view(relation_rows@);
        relation_rows.push(crate::dataset::clone_row(&duplicates[k]));
        proof {
            assert(crate::rows::rows_view(relation_rows@) =~= before.push(duplicates@[k as int]@));
            assert(crate::rows::rows_view(duplicates@).take(k + 1) =~= crate::rows::rows_view(duplicates@).take(k as int).push(duplicates@[k as int]@));
            assert(crate::rows::rows_view(relation_rows@) =~= distinct + crate::rows::rows_view(duplicates@).take(k + 1));
        }
    }
    assert(crate::rows::rows_view(duplicates@).take(duplicates@.len() as int) =~= crate::rows::rows_view(duplicates@));
    assert(crate::rows::rows_view(relation_rows@) =~= unshuffled_rows(distinct, active_view));
    proof {
        let v = crate::rows::rows_view(relation_rows@);
        assert(v.to_set() =~= distinct.to_set()) by {
            assert forall|x: Seq<i32>| v.to_set().contains(x) implies distinct.to_set().contains(x) by {
                let m = choose|m: int| 0 <= m < v.len() && v[m] == x;
                if m < base.len() {
                    assert(crate::rows::rows_view(base)[m] == x);
                }
            }
            assert forall|x: Seq<i32>| distinct.to_set().contains(x) implies v.to_set().contains(x) by {
                let m = choose|m: int| 0 <= m < distinct.len() && distinct[m] == x;
                assert(crate::rows::rows_view(base)[m] == x);
                assert(v[m] == x);
            }
        }
    }
    let ghost before_shuffle = relation_rows@;
    let count = relation_rows.len();
    assert(before_shuffle.len() == count);
    shuffle(&mut relation_rows, rng);
    proof {
        lemma_multiset_to_set(relation_rows@, before_shuffle);
        if before_shuffle.len() > 0 {
            lemma_shuffled_rows(before_shuffle, old(rng)@, before_shuffle.len() - 1);
        }
    }
    relation_rows
}

/// The generator state after the raw rows of the first `upto` inputs are
/// drawn from `state`.
#[verifier::opaque]
pub open spec fn materialized_state(sets: Seq<Seq<Seq<i32>>>, active: Seq<Option<Vec<i32>>>, state: u64, upto: int) -> u64
    decreases upto,
{
    if upto <= 0 {
        state
    } else {
        advanced(materialized_state(sets, active, state, upto - 1), shuffle_draws(unshuffled_rows(sets[upto - 1], active[upto - 1]).len()))
    }
}

/// The rows of each input in increasing order.
pub open spec fn row_views(rows: Seq<RowSet>) -> Seq<Seq<Seq<i32>>> {
    rows.map_values(|r: RowSet| r@)
}

/// The relation data of every input, in declaration order.
#[verifier::loop_isolation(false)]
fn materialize_relations(
    inputs: &Vec<crate::model::RelationDecl>,
    rows: Vec<RowSet>,
    active: Vec<Option<Vec<i32>>>,
    rng: &mut SplitMix64,
) -> (r: Result<Vec<crate::dataset::RelationData>, GenerateError>)
    requires
        rows@.len() == inputs@.len(),
        active@.len() == inputs@.len(),
        all_wf(rows@),
        forall|p: int| 0 <= p < active@.len() ==> (#[trigger] active@[p] matches Some(d) ==> rows@[p]@.to_set().contains(d@)),
    ensures
        r matches Ok(rels) ==> {
            &&& rels@.len() == inputs@.len()
            &&& forall|p: int| 0 <= p < rels@.len() ==> {
                &&& (#[trigger] rels@[p]).well_formed()
                &&& rels@[p].name@ == inputs@[p].name@
                &&& rels@[p].arity == inputs@[p].arity
                &&& rels@[p].rows_spec().to_set() == rows@[p]@.to_set()
                &&& rels@[p].rows@.len() >= rows@[p]@.len()
                &&& active@[p] is Some ==> rels@[p].rows@.len() > rows@[p]@.len()
                &&& rels@[p].rows_spec() == raw_rows_spec(rows@[p]@, active@[p], materialized_state(row_views(rows@), active@, old(rng)@, p))
            }
            &&& final(rng)@ == materialized_state(row_views(rows@), active@, old(rng)@, rows@.len() as int)
        },
        r matches Err(e) ==> e matches GenerateError::Dataset(_),
        (forall|p: int| 0 <= p < inputs@.len() ==> crate::dataset::relation_name_ok((#[trigger] inputs@[p]).name@) && inputs@[p].arity > 0
            && forall|x: Seq<i32>| #[trigger] rows@[p]@.to_set().contains(x) ==> x.len() == inputs@[p].arity) ==> r is Ok,
{
    let ghost sets = rows@;
    let ghost leading = active@;
    proof {
        reveal(materialized_state);
    }
    let ghost start_state = rng@;
    let ghost fits = forall|p: int| 0 <= p < inputs@.len() ==> crate::dataset::relation_name_ok((#[trigger] inputs@[p]).name@) && inputs@[p].arity > 0
            && forall|x: Seq<i32>| #[trigger] rows@[p]@.to_set().contains(x) ==> x.len() == inputs@[p].arity;
    let mut rows = rows;
    let mut active = active;
    let mut relations: Vec<crate::dataset::RelationData> = Vec::new();
    for p in 0..inputs.len()
        invariant
            rows@.len() == inputs@.len(),
            active@.len() == inputs@.len(),
            sets.len() == inputs@.len(),
            forall|q: int| p <= q < rows@.len() ==> #[trigger] rows@[q] == sets[q],
            all_wf(sets),
            forall|q: int| p <= q < active@.len() ==> (#[trigger] active@[q] matches Some(d) ==> sets[q]@.to_set().contains(d@)),
            forall|q: int| p <= q < active@.len() ==> #[trigger] active@[q] == leading[q],
            leading.len() == inputs@.len(),
            relations@.len() == p,
            fits ==> forall|q: int| 0 <= q < inputs@.len() ==> crate::dataset::relation_name_ok((#[trigger] inputs@[q]).name@) && inputs@[q].arity > 0
                && forall|x: Seq<i32>| #[trigger] sets[q]@.to_set().contains(x) ==> x.len() == inputs@[q].arity,
            forall|q: int| 0 <= q < p ==> {
                &&& (#[trigger] relations@[q]).well_formed()
                &&& relations@[q].name@ == inputs@[q].name@
                &&& relations@[q].arity == inputs@[q].arity
                &&& relations@[q].rows_spec().to_set() == sets[q]@.to_set()
                &&& relations@[q].rows@.len() >= sets[q]@.len()
                &&& leading[q] is Some ==> relations@[q].rows@.len() > sets[q]@.len()
                &&& relations@[q].rows_spec() == raw_rows_spec(sets[q]@, leading[q], materialized_state(row_views(sets), leading, start_state, q))
            },
            rng@ == materialized_state(row_views(sets), leading, start_state, p as int),
    {
        let mut set = RowSet::new();
        std::mem::swap(&mut set, &mut rows[p]);
        let mut chosen: Option<Vec<i32>> = None;
        std::mem::swap(&mut chosen, &mut active[p]);
        assert(sets[p as int].wf());
        assert(set == sets[p as int]);
        proof {
            reveal(materialized_state);
            assert(row_views(sets)[p as int] == sets[p as int]@);
        }
        let raw = raw_rows(set, chosen, rng);
        let ghost raw_view = raw@;
        proof {
            if fits {
                let rv = crate::rows::rows_view(raw_view);
                assert forall|i: int| 0 <= i < rv.len() implies (#[trigger] rv[i]).len() == inputs@[p as int].arity by {
                    assert(rv.to_set().contains(rv[i]));
                    assert(sets[p as int]@.to_set().contains(rv[i]));
                }
                assert(crate::dataset::rows_have_width(rv, inputs@[p as int].arity as nat));
            }
        }
        let relation = match crate::dataset::RelationData::new(crate::model::clone_string(&inputs[p].name), inputs[p].arity, raw) {
            Ok(relation) => relation,
            Err(e) => {
                proof {
                    if fits {
                        assert(crate::dataset::relation_name_ok(inputs@[p as int].name@));
                        assert(inputs@[p as int].arity > 0);
                        assert(crate::dataset::rows_have_width(crate::rows::rows_view(raw_view), inputs@[p as int].arity as nat));
                    }
                }
                return Err(GenerateError::Dataset(e));
            },
        };
        proof {
            assert(relation.rows_spec() == crate::rows::rows_view(raw_view));
            assert(relation.rows_spec().len() == relation.rows@.len());
        }
        relations.push(relation);
    }
    Ok(relations)
}

/// The scenario is available to the query: coverage and empty-input data
/// need every full-key membership to be observable, and no-match data needs
/// a variable that crosses two disjoint noise domains.
pub open spec fn scenario_admitted(module: crate::model::CqModule, scenario: Scenario) -> bool {
    let atoms = module.body@;
    match scenario {
        Scenario::Coverage | Scenario::EmptyInput => forall|k: int| 0 <= k < atoms.len() && #[trigger] crate::analysis::is_membership(atoms, k) ==> !crate::analysis::duplicated_occurrence(atoms, k),
        Scenario::NoMatch => crate::analysis::domain_conflict(atoms, module.inputs@, crate::analysis::first_unknown(atoms, module.inputs@)),
    }
}

/// The membership list of `membership_occurrences` judges duplication for
/// every full-key membership of the body.
proof fn lemma_memberships_judge(atoms: Seq<Atom>, memberships: Seq<usize>)
    requires
        atoms.len() <= usize::MAX,
        forall|j: int| 0 <= j < memberships.len() ==> (#[trigger] memberships[j]) < atoms.len() && crate::analysis::is_membership(atoms, memberships[j] as int),
        forall|k: int| 0 <= k < atoms.len() && crate::analysis::is_membership(atoms, k) ==> memberships.contains(k as usize),
    ensures
        (forall|j: int| 0 <= j < memberships.len() ==> !crate::analysis::duplicated_occurrence(atoms, #[trigger] memberships[j] as int))
            <==> (forall|k: int| 0 <= k < atoms.len() && #[trigger] crate::analysis::is_membership(atoms, k) ==> !crate::analysis::duplicated_occurrence(atoms, k)),
{
    if forall|j: int| 0 <= j < memberships.len() ==> !crate::analysis::duplicated_occurrence(atoms, #[trigger] memberships[j] as int) {
        assert forall|k: int| 0 <= k < atoms.len() && #[trigger] crate::analysis::is_membership(atoms, k) implies !crate::analysis::duplicated_occurrence(atoms, k) by {
            let j = choose|j: int| 0 <= j < memberships.len() && memberships[j] == k as usize;
            assert(!crate::analysis::duplicated_occurrence(atoms, memberships[j] as int));
        }
    }
}

/// The refusal of coverage and empty-input data: it names the first full-key
/// membership, in body order, that another occurrence repeats, counting
/// occurrences from 1.
pub open spec fn membership_refusal(atoms: Seq<Atom>, e: GenerateError) -> bool {
    exists|m: int| {
        &&& 0 <= m < atoms.len() && #[trigger] crate::analysis::is_membership(atoms, m) && crate::analysis::duplicated_occurrence(atoms, m)
        &&& forall|i: int| 0 <= i < m && crate::analysis::is_membership(atoms, i) ==> !crate::analysis::duplicated_occurrence(atoms, i)
        &&& e matches GenerateError::IndistinguishableMembership { occurrence, relation } && occurrence == m + 1 && relation@ == atoms[m].rel()
    }
}

/// The membership the scenario check stops at is the first duplicated one in
/// body order.
proof fn lemma_first_refusal(atoms: Seq<Atom>, memberships: Seq<usize>, e: GenerateError)
    requires
        forall|j: int| 0 <= j < memberships.len() ==> (#[trigger] memberships[j]) < atoms.len() && crate::analysis::is_membership(atoms, memberships[j] as int),
        forall|k: int| 0 <= k < atoms.len() && crate::analysis::is_membership(atoms, k) ==> memberships.contains(k as usize),
        forall|i: int, j: int| 0 <= i < j < memberships.len() ==> memberships[i] < memberships[j],
        exists|j: int| 0 <= j < memberships.len() && {
            &&& crate::analysis::duplicated_occurrence(atoms, #[trigger] memberships[j] as int)
            &&& forall|i: int| 0 <= i < j ==> !crate::analysis::duplicated_occurrence(atoms, #[trigger] memberships[i] as int)
            &&& e matches GenerateError::IndistinguishableMembership { occurrence, relation } && occurrence == memberships[j] + 1 && relation@ == atoms[memberships[j] as int].rel()
        },
    ensures
        membership_refusal(atoms, e),
{
    let j = choose|j: int| 0 <= j < memberships.len() && {
        &&& crate::analysis::duplicated_occurrence(atoms, #[trigger] memberships[j] as int)
        &&& forall|i: int| 0 <= i < j ==> !crate::analysis::duplicated_occurrence(atoms, #[trigger] memberships[i] as int)
        &&& e matches GenerateError::IndistinguishableMembership { occurrence, relation } && occurrence == memberships[j] + 1 && relation@ == atoms[memberships[j] as int].rel()
    };
    let m = memberships[j] as int;
    assert forall|i: int| 0 <= i < m && crate::analysis::is_membership(atoms, i) implies !crate::analysis::duplicated_occurrence(atoms, i) by {
        assert(memberships.contains(i as usize));
        let ji = choose|ji: int| 0 <= ji < memberships.len() && memberships[ji] == i as usize;
        if ji >= j {
            if ji > j {
                assert(memberships[j] < memberships[ji]);
            }
        }
        assert(!crate::analysis::duplicated_occurrence(atoms, memberships[ji] as int));
    }
    assert(crate::analysis::is_membership(atoms, m));
}

/// What checking a scenario gives: `Ok` exactly for an admitted scenario. A
/// refused coverage or empty-input scenario names a duplicated membership; a
/// refused no-match scenario is reported as inapplicable once every body atom
/// names a declared input, and as the first undeclared relation otherwise.
pub open spec fn check_outcome(module: crate::model::CqModule, scenario: Scenario, r: Result<(), GenerateError>) -> bool {
    let known = crate::analysis::first_unknown(module.body@, module.inputs@) == module.body@.len();
    &&& r is Ok <==> scenario_admitted(module, scenario)
    &&& scenario != Scenario::NoMatch ==> (r matches Err(e) ==> e is IndistinguishableMembership)
    &&& scenario != Scenario::NoMatch ==> (r matches Err(e) ==> membership_refusal(module.body@, e))
    &&& scenario == Scenario::NoMatch && !known && !scenario_admitted(module, scenario) ==> (r matches Err(GenerateError::UnknownRelation(name))
        && name@ == module.body@[crate::analysis::first_unknown(module.body@, module.inputs@)].rel())
    &&& (r matches Err(GenerateError::ScenarioNotApplicable { scenario: s, reason }) ==> s == scenario && scenario == Scenario::NoMatch
        && !scenario_admitted(module, scenario) && reason == NO_MATCH_UNAVAILABLE)
    &&& scenario == Scenario::NoMatch && known && !scenario_admitted(module, scenario) ==> (r matches Err(
        GenerateError::ScenarioNotApplicable { .. },
    ))
    &&& scenario == Scenario::NoMatch && known ==> (r is Ok <==> scenario_admitted(module, scenario))
}

/// The scenario, the scale and the seed change only the rows: data
/// generated for one query under any two configurations has the same
/// relations, with the same names and arities, in the same order.
pub proof fn generated_schema_is_fixed(
    module: crate::model::CqModule,
    suite: crate::Suite,
    case_name: Seq<char>,
    first_config: crate::GenerationConfig,
    second_config: crate::GenerationConfig,
    first: crate::dataset::Dataset,
    second: crate::dataset::Dataset,
)
    requires
        generation_outcome(module, suite, case_name, first_config, Ok(first)),
        generation_outcome(module, suite, case_name, second_config, Ok(second)),
    ensures
        first.relations@.len() == second.relations@.len(),
        forall|i: int| 0 <= i < first.relations@.len() ==> (#[trigger] first.relations@[i]).name@ == second.relations@[i].name@
            && first.relations@[i].arity == second.relations@[i].arity,
{
    assert forall|i: int| 0 <= i < first.relations@.len() implies (#[trigger] first.relations@[i]).name@ == second.relations@[i].name@
        && first.relations@[i].arity == second.relations@[i].arity by {
        assert(first.relations@[i].name@ == module.inputs@[i].name@);
        assert(second.relations@[i].name@ == module.inputs@[i].name@);
    }
}

/// Two refusals of a scenario are the same: the same variant naming the same
/// occurrence, relation or reason.
pub open spec fn same_refusal(a: GenerateError, b: GenerateError) -> bool {
    match (a, b) {
        (
            GenerateError::IndistinguishableMembership { occurrence: o1, relation: r1 },
            GenerateError::IndistinguishableMembership { occurrence: o2, relation: r2 },
        ) => o1 == o2 && r1@ == r2@,
        (GenerateError::UnknownRelation(n1), GenerateError::UnknownRelation(n2)) => n1@ == n2@,
        (
            GenerateError::ScenarioNotApplicable { scenario: s1, reason: q1 },
            GenerateError::ScenarioNotApplicable { scenario: s2, reason: q2 },
        ) => s1 == s2 && q1 == q2,
        _ => false,
    }
}

/// Data is generated only for a scenario that the scenario check accepts,
/// and a scenario that the check refuses is refused by generation with the
/// same error.
pub proof fn generation_agrees_with_check(
    module: crate::model::CqModule,
    suite: crate::Suite,
    case_name: Seq<char>,
    config: crate::GenerationConfig,
    generated: Result<crate::dataset::Dataset, GenerateError>,
    checked: Result<(), GenerateError>,
)
    requires
        generation_outcome(module, suite, case_name, config, generated),
        check_outcome(module, config.scenario, checked),
    ensures
        generated is Ok ==> checked is Ok,
        !scenario_admitted(module, config.scenario) ==> (generated matches Err(g) && checked matches Err(c) && same_refusal(g, c)),
{
    if !scenario_admitted(module, config.scenario) && config.scenario != Scenario::NoMatch {
        let atoms = module.body@;
        let g = generated->Err_0;
        let c = checked->Err_0;
        assert(membership_refusal(atoms, g));
        assert(membership_refusal(atoms, c));
        let mg = choose|m: int| {
            &&& 0 <= m < atoms.len() && #[trigger] crate::analysis::is_membership(atoms, m) && crate::analysis::duplicated_occurrence(atoms, m)
            &&& forall|i: int| 0 <= i < m && crate::analysis::is_membership(atoms, i) ==> !crate::analysis::duplicated_occurrence(atoms, i)
            &&& g matches GenerateError::IndistinguishableMembership { occurrence, relation } && occurrence == m + 1 && relation@ == atoms[m].rel()
        };
        let mc = choose|m: int| {
            &&& 0 <= m < atoms.len() && #[trigger] crate::analysis::is_membership(atoms, m) && crate::analysis::duplicated_occurrence(atoms, m)
            &&& forall|i: int| 0 <= i < m && crate::analysis::is_membership(atoms, i) ==> !crate::analysis::duplicated_occurrence(atoms, i)
            &&& c matches GenerateError::IndistinguishableMembership { occurrence, relation } && occurrence == m + 1 && relation@ == atoms[m].rel()
        };
        if mg < mc {
            assert(!crate::analysis::duplicated_occurrence(atoms, mg));
        } else if mc < mg {
            assert(!crate::analysis::duplicated_occurrence(atoms, mc));
        }
    }
}

/// Check whether a query admits a scenario without materializing rows.
pub fn check_module_scenario(module: &crate::model::CqModule, scenario: Scenario) -> (r: Result<(), GenerateError>)
    ensures
        check_outcome(*module, scenario, r),
{
    let atoms = &module.body;
    let accesses = crate::analysis::access_patterns(atoms);
    let memberships = crate::analysis::membership_occurrences(atoms, &accesses);
    proof {
        assert(atoms@.len() == atoms.len());
        lemma_memberships_judge(atoms@, memberships@);
    }
    let r = crate::analysis::check_scenario_analysis(atoms, &module.inputs, &memberships, scenario);
    proof {
        if scenario != Scenario::NoMatch && r is Err {
            lemma_first_refusal(atoms@, memberships@, r->Err_0);
        }
    }
    r
}

/// Every input with columns holds exactly `target` distinct rows, but the
/// one input that empty-input data leaves empty.
pub open spec fn meets_row_target(d: crate::dataset::Dataset, module: crate::model::CqModule, scenario: Scenario, target: nat) -> bool {
    forall|p: int|
        0 <= p < d.relations@.len() && module.inputs@[p].arity > 0 ==> (#[trigger] d.manifest.relations@[p]).distinct_rows == target
            || (scenario == Scenario::EmptyInput && d.relations@[p].rows@.len() == 0)
}

/// No planted row in any of `len` inputs.
pub open spec fn no_rows(len: nat) -> Seq<Set<Seq<i32>>> {
    Seq::new(len, |p: int| Set::<Seq<i32>>::empty())
}

/// No duplicate marker in any of `len` inputs.
pub open spec fn no_markers(len: nat) -> Seq<Option<Vec<i32>>> {
    Seq::new(len, |p: int| None::<Vec<i32>>)
}

/// Each input's rows after noise fills it, the input `emptied` cleared.
pub open spec fn filled_sets(
    inputs: Seq<crate::model::RelationDecl>,
    planted: Seq<Set<Seq<i32>>>,
    state: u64,
    distinct_rows: nat,
    emptied: int,
) -> Seq<Set<Seq<i32>>> {
    Seq::new(inputs.len(), |p: int| if p == emptied {
        Set::<Seq<i32>>::empty()
    } else {
        noise_filled(planted[p], planted[p].len(), noise_columns(inputs, state, p), distinct_rows)
    })
}

/// The duplicate markers that stay, the input `emptied` losing its own.
pub open spec fn kept_markers(markers: Seq<Option<Vec<i32>>>, len: nat, emptied: int) -> Seq<Option<Vec<i32>>> {
    Seq::new(len, |p: int| if p == emptied { None } else { markers[p] })
}

/// Each set's rows in increasing order.
pub open spec fn sorted_views(sets: Seq<Set<Seq<i32>>>) -> Seq<Seq<Seq<i32>>> {
    sets.map_values(|set: Set<Seq<i32>>| crate::rows::sorted_rows(set))
}

/// The rows of each input as generated: the rows `planted` with the
/// duplicate markers `markers`, filled with noise whose columns are drawn
/// after generator state `state`, the input `emptied` cleared, then the raw
/// rows of every input drawn in declaration order.
#[verifier::opaque]
pub open spec fn relations_generated(
    inputs: Seq<crate::model::RelationDecl>,
    relations: Seq<crate::dataset::RelationData>,
    planted: Seq<Set<Seq<i32>>>,
    markers: Seq<Option<Vec<i32>>>,
    state: u64,
    distinct_rows: nat,
    emptied: int,
) -> bool {
    let views = sorted_views(filled_sets(inputs, planted, state, distinct_rows, emptied));
    let active = kept_markers(markers, inputs.len(), emptied);
    let drawn = advanced(state, 2 * total_columns(inputs, inputs.len()));
    &&& relations.len() == inputs.len()
    &&& forall|p: int| 0 <= p < relations.len() ==> #[trigger] relations[p].rows_spec() == raw_rows_spec(views[p], active[p],
        materialized_state(views, active, drawn, p))
}

/// Planting, noise, emptying and materializing in turn give the relations
/// that `relations_generated` describes.
#[verifier::rlimit(40)]
proof fn lemma_relations_generated(
    inputs: Seq<crate::model::RelationDecl>,
    rels: Seq<crate::dataset::RelationData>,
    planted: Seq<RowSet>,
    markers: Seq<Option<Vec<i32>>>,
    filled: Seq<RowSet>,
    sets: Seq<RowSet>,
    active: Seq<Option<Vec<i32>>>,
    state: u64,
    drawn: u64,
    distinct_rows: nat,
    emptied: int,
)
    requires
        planted.len() == inputs.len(),
        filled.len() == inputs.len(),
        sets.len() == inputs.len(),
        active.len() == inputs.len(),
        markers.len() == inputs.len(),
        rels.len() == inputs.len(),
        all_wf(planted),
        all_wf(sets),
        forall|p: int| 0 <= p < inputs.len() ==> (#[trigger] filled[p])@.to_set() == noise_filled(planted[p]@.to_set(), planted[p]@.len(),
            noise_columns(inputs, state, p), distinct_rows),
        drawn == advanced(state, 2 * total_columns(inputs, inputs.len())),
        forall|p: int| 0 <= p < inputs.len() && p != emptied ==> #[trigger] sets[p] == filled[p],
        forall|p: int| 0 <= p < inputs.len() && p != emptied ==> #[trigger] active[p] == markers[p],
        0 <= emptied < inputs.len() ==> sets[emptied]@.len() == 0 && active[emptied] is None,
        forall|p: int| 0 <= p < inputs.len() ==> #[trigger] rels[p].rows_spec() == raw_rows_spec(sets[p]@, active[p],
            materialized_state(row_views(sets), active, drawn, p)),
    ensures
        relations_generated(inputs, rels, row_sets(planted), markers, state, distinct_rows, emptied),
{
    reveal(relations_generated);
    let plan = row_sets(planted);
    let spec_filled = filled_sets(inputs, plan, state, distinct_rows, emptied);
    let spec_active = kept_markers(markers, inputs.len(), emptied);
    let views = sorted_views(spec_filled);
    assert(views =~= row_views(sets)) by {
        assert forall|p: int| 0 <= p < inputs.len() implies #[trigger] views[p] == row_views(sets)[p] by {
            assert(sets[p].wf());
            sets[p].lemma_distinct();
            crate::rows::lemma_sorted_rows(sets[p]@);
            if p == emptied {
                assert(sets[p]@.to_set() =~= Set::<Seq<i32>>::empty());
            } else {
                planted[p].lemma_distinct();
                assert(plan[p] == planted[p]@.to_set());
            }
        }
    }
    assert(spec_active =~= active) by {
        assert forall|p: int| 0 <= p < inputs.len() implies #[trigger] spec_active[p] == active[p] by {
            if p != emptied {
                assert(active[p] == markers[p]);
            }
        }
    }
    assert forall|p: int| 0 <= p < rels.len() implies #[trigger] rels[p].rows_spec() == raw_rows_spec(views[p], spec_active[p],
        materialized_state(views, spec_active, drawn, p)) by {
        assert(views[p] == row_views(sets)[p]);
    }
}

/// The duplicate marker of each input is the least row that the primary
/// proof plants into it.
pub open spec fn primary_markers(
    markers: Seq<Option<Vec<i32>>>,
    positions: Seq<usize>,
    slots: Seq<Vec<usize>>,
    layout: PlantingLayout,
    variable_count: nat,
    relation_count: nat,
) -> bool {
    &&& markers.len() == relation_count
    &&& forall|p: int| 0 <= p < relation_count ==> #[trigger] least_marker(markers[p],
        projected_sets(positions, slots, relation_count, witness_values(layout, variable_count, 0), None, positions.len() as int)[p])
}

/// The rows of a set that are not noise: noise rows hold only negative
/// values.
pub open spec fn planted_part(set: Set<Seq<i32>>) -> Set<Seq<i32>> {
    set.filter(|x: Seq<i32>| !negative_row(x))
}

/// The declared input that each body atom reads.
pub open spec fn body_positions(module: crate::model::CqModule) -> Seq<usize> {
    Seq::new(module.body@.len(), |k: int| crate::analysis::position_of(module.inputs@, module.body@[k]) as usize)
}

/// The planting plan of a query: its access patterns, the variable slots of
/// its atoms, its membership occurrences in increasing order, and the value
/// layout drawn from `seed` under limits `l`.
pub open spec fn coverage_plan(
    module: crate::model::CqModule,
    seed: u64,
    l: Limits,
    accesses: Seq<AccessPattern>,
    slots: Seq<Vec<usize>>,
    memberships: Seq<usize>,
    layout: PlantingLayout,
) -> bool {
    let atoms = module.body@;
    let names = body_variables(module);
    &&& accesses.len() == atoms.len()
    &&& forall|k: int| 0 <= k < atoms.len() ==> crate::analysis::access_spec(atoms, k, #[trigger] accesses[k])
    &&& crate::analysis::slots_spec(atoms, names, slots)
    &&& forall|j: int| 0 <= j < memberships.len() ==> (#[trigger] memberships[j]) < atoms.len() && crate::analysis::is_membership(atoms, memberships[j] as int)
    &&& forall|k: int| 0 <= k < atoms.len() && crate::analysis::is_membership(atoms, k) ==> memberships.contains(k as usize)
    &&& forall|i: int, j: int| 0 <= i < j < memberships.len() ==> memberships[i] < memberships[j]
    &&& layout.laid_out(seeded_base(seed), l.planted_witnesses as int, names.len() as int, memberships.len() as int,
        crate::analysis::edge_marker_total(accesses, atoms, crate::analysis::without(names, module.head.vars()).len() > 0) as int)
}

/// Every input but `emptied` holds, besides noise, exactly the rows that
/// coverage planting gives for the query's plan, and every input's raw rows
/// are those generated from them.
pub open spec fn planted_exactly(
    module: crate::model::CqModule,
    seed: u64,
    l: Limits,
    relations: Seq<crate::dataset::RelationData>,
    emptied: int,
) -> bool {
    exists|accesses: Seq<AccessPattern>, slots: Seq<Vec<usize>>, memberships: Seq<usize>, layout: PlantingLayout, markers: Seq<Option<Vec<i32>>>|
        #[trigger] planted_with(module, seed, l, relations, emptied, accesses, slots, memberships, layout, markers)
}

/// The rows that coverage planting gives for a plan, in each of `len`
/// inputs.
pub open spec fn planned_sets(
    module: crate::model::CqModule,
    l: Limits,
    len: nat,
    accesses: Seq<AccessPattern>,
    slots: Seq<Vec<usize>>,
    memberships: Seq<usize>,
    layout: PlantingLayout,
) -> Seq<Set<Seq<i32>>> {
    let names = body_variables(module);
    coverage_sets(Seq::new(len, |p: int| Set::<Seq<i32>>::empty()), module.body@, accesses, body_positions(module), slots, memberships, names,
        crate::analysis::without(names, module.head.vars()), layout, l.distinct_rows as nat, l.planted_witnesses as int)
}

/// `relations` come from the plan `accesses`, `slots`, `memberships`,
/// `layout` of the query with duplicate markers `markers`: besides noise,
/// every input but `emptied` holds exactly the planted rows, and every
/// input's raw rows are those generated from them.
#[verifier::opaque]
pub open spec fn planted_with(
    module: crate::model::CqModule,
    seed: u64,
    l: Limits,
    relations: Seq<crate::dataset::RelationData>,
    emptied: int,
    accesses: Seq<AccessPattern>,
    slots: Seq<Vec<usize>>,
    memberships: Seq<usize>,
    layout: PlantingLayout,
    markers: Seq<Option<Vec<i32>>>,
) -> bool {
    let goal = planned_sets(module, l, relations.len(), accesses, slots, memberships, layout);
    &&& coverage_plan(module, seed, l, accesses, slots, memberships, layout)
    &&& forall|p: int| 0 <= p < relations.len() && p != emptied ==> #[trigger] planted_part(relations[p].rows_spec().to_set()) == planted_part(goal[p])
    &&& primary_markers(markers, body_positions(module), slots, layout, body_variables(module).len(), relations.len())
    &&& relations_generated(module.inputs@, relations, goal, markers, seed.wrapping_add(splitmix_gamma()), l.distinct_rows as nat, emptied)
}

/// The parts of `planted_with`, put together.
proof fn lemma_planted_with(
    module: crate::model::CqModule,
    seed: u64,
    l: Limits,
    relations: Seq<crate::dataset::RelationData>,
    emptied: int,
    accesses: Seq<AccessPattern>,
    slots: Seq<Vec<usize>>,
    memberships: Seq<usize>,
    layout: PlantingLayout,
    markers: Seq<Option<Vec<i32>>>,
    goal: Seq<Set<Seq<i32>>>,
)
    requires
        goal == planned_sets(module, l, relations.len(), accesses, slots, memberships, layout),
        coverage_plan(module, seed, l, accesses, slots, memberships, layout),
        forall|p: int| 0 <= p < relations.len() && p != emptied ==> #[trigger] planted_part(relations[p].rows_spec().to_set()) == planted_part(goal[p]),
        primary_markers(markers, body_positions(module), slots, layout, body_variables(module).len(), relations.len()),
        relations_generated(module.inputs@, relations, goal, markers, seed.wrapping_add(splitmix_gamma()), l.distinct_rows as nat, emptied),
    ensures
        planted_exactly(module, seed, l, relations, emptied),
{
    reveal(planted_with);
    assert(planted_with(module, seed, l, relations, emptied, accesses, slots, memberships, layout, markers));
}

/// What generating data for `module` gives: data only for an admitted
/// scenario, and then data valid for the query, labelled with its
/// provenance, whose inputs meet the row target of the query's shape; for an
/// unadmitted scenario the refusal that the scenario check gives; no-match
/// data whenever the query is admitted, names only declared inputs, is small
/// (`small_query`), has well-formed inputs whose columns fit the noise
/// space, and the case name is a manifest token; coverage and (for a nonempty
/// body) empty-input data under the same conditions when the scenario is
/// admitted, every atom has columns, its declared width, and the row
/// target has room for every planted proof (`body_fits_rows`). Coverage data holds the first
/// complete witness drawn from the seed, and empty-input data holds it in
/// every input but the emptied one.
/// Empty-input and no-match data give the query no answer. Coverage data
/// gives it one and makes every advertised edge observable: each full-key
/// membership, each projected-away variable, a multi-candidate bucket with
/// two surviving complements and (unless the prefix supplies the key) a
/// missing key for each partial lookup, a near miss for each column of a
/// composite key, and a raw duplicate in every input the body reads.
pub open spec fn generation_outcome(
    module: crate::model::CqModule,
    suite: crate::Suite,
    case_name: Seq<char>,
    config: crate::GenerationConfig,
    r: Result<crate::dataset::Dataset, GenerateError>,
) -> bool {
    &&& r is Ok ==> scenario_admitted(module, config.scenario)
    &&& r is Ok ==> crate::analysis::first_unknown(module.body@, module.inputs@) == module.body@.len()
    &&& r matches Ok(d) ==> {
        &&& d.valid_for(&module)
        &&& d.manifest.suite == suite
        &&& d.manifest.case@ == case_name
        &&& d.manifest.scenario == config.scenario
        &&& d.manifest.scale == config.scale
        &&& d.manifest.seed == config.seed
        &&& d.manifest.generator_version == crate::GENERATOR_VERSION
    }
    &&& config.scenario != Scenario::NoMatch && !scenario_admitted(module, config.scenario) ==> (r matches Err(e)
        && membership_refusal(module.body@, e))
    &&& config.scenario == Scenario::NoMatch && !scenario_admitted(module, config.scenario) ==> r is Err
    &&& config.scenario == Scenario::NoMatch && !scenario_admitted(module, config.scenario)
        && crate::analysis::first_unknown(module.body@, module.inputs@) == module.body@.len() ==> (r matches Err(
        GenerateError::ScenarioNotApplicable { scenario, reason },
    ) && scenario == Scenario::NoMatch && reason == NO_MATCH_UNAVAILABLE)
    &&& config.scenario == Scenario::NoMatch && !scenario_admitted(module, config.scenario)
        && crate::analysis::first_unknown(module.body@, module.inputs@) < module.body@.len() ==> (r matches Err(
        GenerateError::UnknownRelation(name),
    ) && name@ == module.body@[crate::analysis::first_unknown(module.body@, module.inputs@)].rel())
    &&& config.scenario == Scenario::NoMatch && scenario_admitted(module, Scenario::NoMatch)
        && crate::analysis::first_unknown(module.body@, module.inputs@) == module.body@.len() && small_query(module)
        && inputs_well_formed(module) && noise_space_fits(total_columns(module.inputs@, module.inputs@.len()) as int)
        && crate::dataset::manifest_token_ok(case_name) ==> r is Ok
    &&& (config.scenario == Scenario::Coverage || (config.scenario == Scenario::EmptyInput && module.body@.len() > 0))
        && crate::analysis::first_unknown(module.body@, module.inputs@) == module.body@.len()
        && small_query(module) && inputs_well_formed(module) && noise_space_fits(total_columns(module.inputs@, module.inputs@.len()) as int)
        && crate::dataset::manifest_token_ok(case_name) && scenario_admitted(module, Scenario::Coverage) && atoms_have_columns(module)
        && widths_declared(module)
        && body_fits_rows(module, config.scale) ==> r is Ok
    &&& r matches Err(GenerateError::UnknownRelation(name)) ==> {
        let u = crate::analysis::first_unknown(module.body@, module.inputs@);
        u < module.body@.len() && name@ == module.body@[u].rel()
    }
    &&& r matches Err(GenerateError::ScenarioNotApplicable { scenario, reason }) ==> scenario == Scenario::NoMatch
        && config.scenario == Scenario::NoMatch && !scenario_admitted(module, Scenario::NoMatch) && reason == NO_MATCH_UNAVAILABLE
    &&& r matches Err(GenerateError::TooManyColumns(_)) ==> !noise_space_fits(total_columns(module.inputs@, module.inputs@.len()) as int)
    &&& r matches Err(e) ==> ((e is IndistinguishableMembership || e is IndistinguishableAccess || e is NearMissesExceedScale)
        ==> config.scenario != Scenario::NoMatch)
    &&& r matches Ok(d) ==> exists|l: Limits|
        #[trigger] shape_limits(config.scale, crate::analysis::component_count(module.body@, module.body@.len()), l)
        && meets_row_target(d, module, config.scenario, l.distinct_rows as nat)
        && (config.scenario == Scenario::Coverage ==> satisfies(
            module,
            d.relations@,
            assignment_of(body_variables(module), seeded_witness(config.seed, l, body_variables(module).len())),
        ))
        && (config.scenario == Scenario::Coverage ==> planted_exactly(module, config.seed, l, d.relations@, -1))
        && (config.scenario == Scenario::NoMatch ==> relations_generated(module.inputs@, d.relations@, no_rows(module.inputs@.len()),
            no_markers(module.inputs@.len()), config.seed.wrapping_add(splitmix_gamma()), l.distinct_rows as nat, -1))
        && (config.scenario == Scenario::EmptyInput ==> planted_exactly(module, config.seed, l, d.relations@,
            crate::analysis::position_of(module.inputs@, module.body@.last())))
        && (config.scenario == Scenario::EmptyInput ==> satisfies_outside(
            module,
            d.relations@,
            assignment_of(body_variables(module), seeded_witness(config.seed, l, body_variables(module).len())),
            crate::analysis::position_of(module.inputs@, module.body@.last()),
        ))
    &&& config.scenario == Scenario::EmptyInput ==> (r matches Ok(d) ==> !has_answer(module, d.relations@))
    &&& config.scenario == Scenario::NoMatch ==> (r matches Ok(d) ==> !has_answer(module, d.relations@))
    &&& config.scenario == Scenario::Coverage ==> (r matches Ok(d) ==> has_answer(module, d.relations@))
    &&& config.scenario == Scenario::Coverage ==> (r matches Ok(d) ==> (projects_away(module) ==> shared_head_observable(module, d.relations@)))
    &&& config.scenario == Scenario::Coverage ==> (r matches Ok(d) ==> forall|k: int|
        0 <= k < module.body@.len() && #[trigger] partial_access(module.body@, k) ==> complements_observable(module, d.relations@, k)
            && multi_candidate_bucket(module, d.relations@, k))
    &&& config.scenario == Scenario::Coverage ==> (r matches Ok(d) ==> forall|k: int|
        0 <= k < module.body@.len() && #[trigger] partial_access(module.body@, k) && !prefix_supplies_key(module, k)
            ==> missing_key_reachable(module, d.relations@, k))
    &&& config.scenario == Scenario::Coverage ==> (r matches Ok(d) ==> forall|k: int, i: int|
        0 <= k < module.body@.len() && 0 <= i < key_columns_at(module.body@, k).len() && key_columns_at(module.body@, k).len() >= 2
            ==> decoy_observable(module, d.relations@, k, #[trigger] key_columns_at(module.body@, k)[i] as int))
    &&& config.scenario == Scenario::Coverage ==> (r matches Ok(d) ==> forall|k: int|
        0 <= k < module.body@.len() ==> (#[trigger] d.manifest.relations@[crate::analysis::position_of(module.inputs@, module.body@[k])]).raw_rows
            > d.manifest.relations@[crate::analysis::position_of(module.inputs@, module.body@[k])].distinct_rows)
    &&& config.scenario == Scenario::Coverage ==> (r matches Ok(d) ==> forall|m: int|
        0 <= m < module.body@.len() && #[trigger] crate::analysis::is_membership(module.body@, m) ==> membership_observable(
            module,
            d.relations@,
            m,
        ))
}

/// A query small enough that every planted range fits the value types: at
/// most 256 body atoms, each of at most 256 columns, and at most 256
/// distinct variables.
pub open spec fn small_query(module: crate::model::CqModule) -> bool {
    &&& module.body@.len() <= 256
    &&& forall|k: int| 0 <= k < module.body@.len() ==> (#[trigger] module.body@[k]).vars().len() <= 256
    &&& body_variables(module).len() <= 256
}

/// Every declared input is safely named and has columns.
pub open spec fn inputs_well_formed(module: crate::model::CqModule) -> bool {
    forall|p: int| 0 <= p < module.inputs@.len() ==> crate::dataset::relation_name_ok((#[trigger] module.inputs@[p]).name@)
        && module.inputs@[p].arity > 0
}

/// Relations that all hold rows include no empty relation.
proof fn lemma_no_empty_relations(relations: Seq<crate::dataset::RelationData>)
    requires
        forall|p: int| 0 <= p < relations.len() ==> (#[trigger] relations[p]).rows@.len() > 0,
    ensures
        crate::dataset::empty_relations(relations) == 0,
    decreases relations.len(),
{
    if relations.len() > 0 {
        let init = relations.drop_last();
        assert forall|p: int| 0 <= p < init.len() implies (#[trigger] init[p]).rows@.len() > 0 by {
            assert(init[p] == relations[p]);
        }
        lemma_no_empty_relations(init);
        assert(relations.last().rows@.len() > 0);
    }
}

/// Every body atom has at least one column.
pub open spec fn atoms_have_columns(module: crate::model::CqModule) -> bool {
    forall|k: int| 0 <= k < module.body@.len() ==> (#[trigger] module.body@[k]).vars().len() > 0
}

/// Total width of the keys of two or more columns among the first `upto`
/// body atoms.
pub open spec fn composite_width(atoms: Seq<Atom>, upto: nat) -> nat
    decreases upto,
{
    if upto == 0 {
        0
    } else {
        composite_width(atoms, (upto - 1) as nat) + if key_columns_at(atoms, upto - 1).len() >= 2 {
            key_columns_at(atoms, upto - 1).len()
        } else {
            0nat
        }
    }
}

/// The access patterns count composite-key columns as the body does.
proof fn lemma_composite_width(accesses: Seq<crate::analysis::AccessPattern>, atoms: Seq<Atom>, upto: nat)
    requires
        upto <= accesses.len(),
        accesses.len() == atoms.len(),
        forall|k: int| 0 <= k < atoms.len() ==> crate::analysis::access_spec(atoms, k, #[trigger] accesses[k]),
    ensures
        crate::analysis::composite_key_total(accesses, upto) == composite_width(atoms, upto),
    decreases upto,
{
    if upto > 0 {
        lemma_composite_width(accesses, atoms, (upto - 1) as nat);
        assert(crate::analysis::access_spec(atoms, upto - 1, accesses[upto - 1]));
    }
}

/// An atom that repeats an earlier one reads only bound variables: it is a
/// full-key membership.
proof fn lemma_repeat_is_membership(atoms: Seq<Atom>, e: int, l: int)
    requires
        0 <= e < l < atoms.len(),
        atoms[e].vars() == atoms[l].vars(),
    ensures
        crate::analysis::is_membership(atoms, l),
{
    let prefix = atoms.take(l);
    crate::analysis::lemma_first_occurrences(crate::analysis::flat_vars(prefix));
    assert forall|c: int| 0 <= c < atoms[l].vars().len() implies crate::analysis::first_occurrences(crate::analysis::flat_vars(prefix)).contains(
        #[trigger] atoms[l].vars()[c],
    ) by {
        assert(prefix[e] == atoms[e]);
        crate::analysis::lemma_flat_vars_contains(prefix, e, c);
    }
}

/// Every body atom has the width that its input declares.
pub open spec fn widths_declared(module: crate::model::CqModule) -> bool {
    forall|k: int|
        0 <= k < module.body@.len() ==> (#[trigger] module.body@[k]).vars().len() == module.inputs@[crate::analysis::position_of(
            module.inputs@,
            module.body@[k],
        )].arity
}

/// The row target of the query's shape at `scale` leaves room, per body
/// atom, for one row of the first witness, of each membership's
/// anti-witness, of the missing key and the two complements of each partial
/// lookup, two for each column of each composite key, and two for the proofs
/// that share a head.
pub open spec fn body_fits_rows(module: crate::model::CqModule, scale: crate::Scale) -> bool {
    let a = module.body@.len();
    forall|l: Limits| #[trigger] shape_limits(scale, crate::analysis::component_count(module.body@, a), l)
        ==> (membership_width(module.body@, a) + 3 + 3 * partial_width(module.body@, a) + 2 * composite_width(module.body@, a)) * a
        <= l.distinct_rows
}

/// How many of the first `upto` body atoms are full-key memberships.
pub open spec fn membership_width(atoms: Seq<Atom>, upto: nat) -> nat
    decreases upto,
{
    if upto == 0 {
        0
    } else {
        membership_width(atoms, (upto - 1) as nat) + if crate::analysis::is_membership(atoms, upto - 1) {
            1nat
        } else {
            0nat
        }
    }
}

/// A strictly increasing list of memberships below `upto` is no longer than
/// their count.
proof fn lemma_membership_width(atoms: Seq<Atom>, memberships: Seq<usize>, upto: nat)
    requires
        forall|j: int| 0 <= j < memberships.len() ==> (#[trigger] memberships[j]) < upto && crate::analysis::is_membership(atoms, memberships[j] as int),
        forall|i: int, j: int| 0 <= i < j < memberships.len() ==> memberships[i] < memberships[j],
    ensures
        memberships.len() <= membership_width(atoms, upto),
    decreases upto,
{
    if upto > 0 {
        if memberships.len() > 0 && memberships.last() == upto - 1 {
            let rest = memberships.drop_last();
            assert forall|j: int| 0 <= j < rest.len() implies (#[trigger] rest[j]) < upto - 1 && crate::analysis::is_membership(atoms, rest[j] as int) by {
                assert(memberships[j] < memberships[memberships.len() - 1]);
            }
            lemma_membership_width(atoms, rest, (upto - 1) as nat);
            assert(crate::analysis::is_membership(atoms, memberships[memberships.len() - 1] as int));
        } else {
            assert forall|j: int| 0 <= j < memberships.len() implies (#[trigger] memberships[j]) < upto - 1
                && crate::analysis::is_membership(atoms, memberships[j] as int) by {
                if memberships[j] == upto - 1 {
                    if j < memberships.len() - 1 {
                        assert(memberships[j] < memberships[memberships.len() - 1]);
                    }
                }
            }
            lemma_membership_width(atoms, memberships, (upto - 1) as nat);
        }
    } else if memberships.len() > 0 {
        assert(memberships[0] < upto);
    }
}

/// How many of the first `upto` body atoms are partial lookups.
pub open spec fn partial_width(atoms: Seq<Atom>, upto: nat) -> nat
    decreases upto,
{
    if upto == 0 {
        0
    } else {
        partial_width(atoms, (upto - 1) as nat) + if partial_access(atoms, upto - 1) {
            1nat
        } else {
            0nat
        }
    }
}

/// The access patterns count the partial lookups of the body.
proof fn lemma_partial_width(accesses: Seq<crate::analysis::AccessPattern>, atoms: Seq<Atom>, upto: nat)
    requires
        upto <= accesses.len(),
        accesses.len() == atoms.len(),
        forall|k: int| 0 <= k < atoms.len() ==> crate::analysis::access_spec(atoms, k, #[trigger] accesses[k]),
    ensures
        crate::analysis::partial_count(accesses, atoms, upto) == partial_width(atoms, upto),
    decreases upto,
{
    if upto > 0 {
        lemma_partial_width(accesses, atoms, (upto - 1) as nat);
        assert(crate::analysis::access_spec(atoms, upto - 1, accesses[upto - 1]));
        assert(atoms[upto - 1].vars().len() == atoms[upto - 1].variables@.len());
    }
}

/// An assignment projects to at most one row per occurrence in each input.
proof fn lemma_projected_sets_len(positions: Seq<usize>, slots: Seq<Vec<usize>>, relation_count: nat, values: Seq<i32>, p: int)
    requires
        0 <= p < relation_count,
    ensures
        projected_sets(positions, slots, relation_count, values, None, positions.len() as int)[p].finite(),
        projected_sets(positions, slots, relation_count, values, None, positions.len() as int)[p].len() <= positions.len(),
{
    let set = projected_sets(positions, slots, relation_count, values, None, positions.len() as int)[p];
    let all = Seq::new(positions.len(), |k: int| project_spec(slots[k]@, values));
    assert(set.subset_of(all.to_set())) by {
        assert forall|x: Seq<i32>| set.contains(x) implies all.to_set().contains(x) by {
            let k = choose|k: int| 0 <= k < positions.len() && included(k, None, positions.len() as int) && positions[k] == p
                && x == project_spec(#[trigger] slots[k]@, values);
            assert(all[k] == x);
        }
    }
    vstd::seq_lib::seq_to_set_is_finite(all);
    all.lemma_cardinality_of_set();
    vstd::set_lib::lemma_set_subset_finite(all.to_set(), set);
    vstd::set_lib::lemma_len_subset(set, all.to_set());
}

/// Filling complete witnesses adds only projections of occurrences.
proof fn lemma_witness_sets_occurrence(
    sets: Seq<Set<Seq<i32>>>,
    positions: Seq<usize>,
    slots: Seq<Vec<usize>>,
    layout: PlantingLayout,
    variable_count: nat,
    distinct_rows: nat,
    count: int,
    w: int,
)
    ensures
        witness_sets(sets, positions, slots, layout, variable_count, distinct_rows, count, w).len() == sets.len(),
        forall|p: int, x: Seq<i32>|
            0 <= p < sets.len() && #[trigger] witness_sets(sets, positions, slots, layout, variable_count, distinct_rows, count, w)[p].contains(x)
                ==> sets[p].contains(x) || exists|k: int| 0 <= k < positions.len() && positions[k] == p && x.len() == (#[trigger] slots[k])@.len(),
    decreases count - w,
{
    if w < count {
        let added = projected_sets(positions, slots, sets.len(), witness_values(layout, variable_count, w), None, positions.len() as int);
        if sets_fit(sets, added, distinct_rows) {
            let next = union_sets(sets, added);
            lemma_witness_sets_occurrence(next, positions, slots, layout, variable_count, distinct_rows, count, w + 1);
            assert forall|p: int, x: Seq<i32>|
                0 <= p < sets.len() && #[trigger] witness_sets(sets, positions, slots, layout, variable_count, distinct_rows, count, w)[p].contains(x)
                implies sets[p].contains(x) || exists|k: int| 0 <= k < positions.len() && positions[k] == p && x.len() == (#[trigger] slots[k])@.len() by {
                if !next[p].contains(x) {
                } else if !sets[p].contains(x) {
                    assert(added[p].contains(x));
                    let k = choose|k: int| 0 <= k < positions.len() && included(k, None, positions.len() as int) && positions[k] == p
                        && x == project_spec(#[trigger] slots[k]@, witness_values(layout, variable_count, w));
                    assert(x.len() == slots[k]@.len());
                }
            }
        }
    }
}

/// Relations of which exactly one holds no rows include one empty relation.
proof fn lemma_one_empty_relation(relations: Seq<crate::dataset::RelationData>, q: int)
    requires
        0 <= q < relations.len(),
        relations[q].rows@.len() == 0,
        forall|p: int| 0 <= p < relations.len() && p != q ==> (#[trigger] relations[p]).rows@.len() > 0,
    ensures
        crate::dataset::empty_relations(relations) == 1,
    decreases relations.len(),
{
    let init = relations.drop_last();
    if q == relations.len() - 1 {
        assert forall|p: int| 0 <= p < init.len() implies (#[trigger] init[p]).rows@.len() > 0 by {
            assert(init[p] == relations[p]);
        }
        lemma_no_empty_relations(init);
    } else {
        assert forall|p: int| 0 <= p < init.len() && p != q implies (#[trigger] init[p]).rows@.len() > 0 by {
            assert(init[p] == relations[p]);
        }
        assert(init[q] == relations[q]);
        lemma_one_empty_relation(init, q);
        assert(relations.last().rows@.len() > 0);
    }
}

/// A strictly increasing list of values below `n` has at most `n` entries.
proof fn lemma_increasing_len(s: Seq<usize>, n: int)
    requires
        n >= 0,
        forall|j: int| 0 <= j < s.len() ==> (#[trigger] s[j]) < n,
        forall|i: int, j: int| 0 <= i < j < s.len() ==> s[i] < s[j],
    ensures
        s.len() <= n,
    decreases s.len(),
{
    if s.len() > 0 {
        let t = s.drop_last();
        let last = s[s.len() - 1] as int;
        assert forall|j: int| 0 <= j < t.len() implies (#[trigger] t[j]) < last by {
            assert(t[j] == s[j]);
        }
        assert forall|i: int, j: int| 0 <= i < j < t.len() implies t[i] < t[j] by {
            assert(t[i] == s[i] && t[j] == s[j]);
        }
        lemma_increasing_len(t, last);
        assert(last < n);
    }
}

/// Leaving out the head's variables never lengthens a list.
proof fn lemma_without_len(vars: Seq<Seq<char>>, head: Seq<Seq<char>>)
    ensures
        crate::analysis::without(vars, head).len() <= vars.len(),
    decreases vars.len(),
{
    if vars.len() > 0 {
        lemma_without_len(vars.drop_last(), head);
    }
}

/// At most `upto` partial accesses among the first `upto`.
proof fn lemma_partial_count_bound(accesses: Seq<crate::analysis::AccessPattern>, atoms: Seq<Atom>, upto: nat)
    ensures
        crate::analysis::partial_count(accesses, atoms, upto) <= upto,
    decreases upto,
{
    if upto > 0 {
        lemma_partial_count_bound(accesses, atoms, (upto - 1) as nat);
    }
}

/// The key columns of a column list are at most as many as its columns.
proof fn lemma_bound_columns_len(vars: Seq<Seq<char>>, bound: Seq<Seq<char>>, upto: nat)
    ensures
        crate::analysis::bound_columns(vars, bound, upto).len() <= upto,
    decreases upto,
{
    if upto > 0 {
        lemma_bound_columns_len(vars, bound, (upto - 1) as nat);
    }
}

/// Composite keys of accesses to atoms of at most `width` columns total at
/// most `upto * width` columns.
proof fn lemma_composite_total_bound(accesses: Seq<crate::analysis::AccessPattern>, atoms: Seq<Atom>, upto: nat, width: nat)
    requires
        upto <= accesses.len(),
        accesses.len() == atoms.len(),
        forall|k: int| 0 <= k < atoms.len() ==> crate::analysis::access_spec(atoms, k, #[trigger] accesses[k]),
        forall|k: int| 0 <= k < atoms.len() ==> (#[trigger] atoms[k]).vars().len() <= width,
    ensures
        crate::analysis::composite_key_total(accesses, upto) <= upto * width,
    decreases upto,
{
    if upto > 0 {
        let k = upto - 1;
        lemma_composite_total_bound(accesses, atoms, (upto - 1) as nat, width);
        assert(crate::analysis::access_spec(atoms, k, accesses[k]));
        lemma_bound_columns_len(
            atoms[k].vars(),
            crate::analysis::first_occurrences(crate::analysis::flat_vars(atoms.take(k))),
            atoms[k].vars().len(),
        );
        assert((upto - 1) * width + width == upto * width) by (nonlinear_arith);
    }
}

/// The base of the complete witnesses for `seed`: the first output of a
/// generator started at `seed`, reduced into `[10_000_000, 20_000_000)`.
pub open spec fn seeded_base(seed: u64) -> int {
    10_000_000 + splitmix_output(seed.wrapping_add(splitmix_gamma())) % 10_000_000
}

/// The first complete witness for `seed`: the variable at index `i` gets
/// `seeded_base(seed) + i * (planted_witnesses + 1)`.
pub open spec fn seeded_witness(seed: u64, l: Limits, variable_count: nat) -> Seq<i32> {
    Seq::new(variable_count, |i: int| (seeded_base(seed) + i * (l.planted_witnesses + 1)) as i32)
}

/// The body's variables in order of first occurrence.
pub open spec fn body_variables(module: crate::model::CqModule) -> Seq<Seq<char>> {
    crate::analysis::first_occurrences(crate::analysis::flat_vars(module.body@))
}

/// The values that `atom` reads from an assignment of its variables.
pub open spec fn atom_row(atom: Atom, assignment: Map<Seq<char>, i32>) -> Seq<i32> {
    atom.vars().map_values(|v: Seq<char>| assignment[v])
}

/// Under `assignment`, every body atom finds its row in the input it names.
pub open spec fn satisfies(
    module: crate::model::CqModule,
    relations: Seq<crate::dataset::RelationData>,
    assignment: Map<Seq<char>, i32>,
) -> bool {
    forall|k: int|
        0 <= k < module.body@.len() ==> relations[crate::analysis::position_of(module.inputs@, module.body@[k])].rows_spec().contains(
            #[trigger] atom_row(module.body@[k], assignment),
        )
}

/// The query has an answer over the relations.
pub open spec fn has_answer(module: crate::model::CqModule, relations: Seq<crate::dataset::RelationData>) -> bool {
    exists|assignment: Map<Seq<char>, i32>| satisfies(module, relations, assignment)
}

/// Under `assignment`, every body atom but occurrence `m` finds its row.
pub open spec fn satisfies_except(
    module: crate::model::CqModule,
    relations: Seq<crate::dataset::RelationData>,
    assignment: Map<Seq<char>, i32>,
    m: int,
) -> bool {
    forall|k: int|
        0 <= k < module.body@.len() && k != m ==> relations[crate::analysis::position_of(module.inputs@, module.body@[k])].rows_spec().contains(
            #[trigger] atom_row(module.body@[k], assignment),
        )
}

/// Every body atom that reads an input other than `emptied` finds its row of
/// the assignment.
pub open spec fn satisfies_outside(
    module: crate::model::CqModule,
    relations: Seq<crate::dataset::RelationData>,
    assignment: Map<Seq<char>, i32>,
    emptied: int,
) -> bool {
    forall|k: int|
        0 <= k < module.body@.len() && crate::analysis::position_of(module.inputs@, module.body@[k]) != emptied
            ==> relations[crate::analysis::position_of(module.inputs@, module.body@[k])].rows_spec().contains(
            #[trigger] atom_row(module.body@[k], assignment),
        )
}

/// Leaving occurrence `m` out of the query admits an assignment that `m`
/// itself rejects: the data makes the membership observable. Where the head
/// keeps every body variable, that assignment's head tuple is no answer of
/// the full query.
pub open spec fn membership_observable(module: crate::model::CqModule, relations: Seq<crate::dataset::RelationData>, m: int) -> bool {
    exists|assignment: Map<Seq<char>, i32>|
        #[trigger] satisfies_except(module, relations, assignment, m)
        && !relations[crate::analysis::position_of(module.inputs@, module.body@[m])].rows_spec().contains(atom_row(module.body@[m], assignment))
        && (head_keeps_body(module) ==> !in_result(module, relations, atom_row(module.head, assignment)))
}

/// `tuple` is an answer of the query: the head row of some assignment that
/// satisfies every body atom.
pub open spec fn in_result(module: crate::model::CqModule, relations: Seq<crate::dataset::RelationData>, tuple: Seq<i32>) -> bool {
    exists|b: Map<Seq<char>, i32>| #[trigger] satisfies(module, relations, b) && atom_row(module.head, b) == tuple
}

/// Every variable of the body occurs in the head.
pub open spec fn head_keeps_body(module: crate::model::CqModule) -> bool {
    forall|k: int, c: int|
        0 <= k < module.body@.len() && 0 <= c < module.body@[k].vars().len() ==> module.head.vars().contains(#[trigger] module.body@[k].vars()[c])
}

/// An assignment that satisfies every body atom but `m`, and whose row for
/// atom `m` is absent, changes the result: where the head keeps every body
/// variable, its head tuple is no answer of the full query, though it is one
/// of the query without atom `m`.
pub proof fn left_out_answer_is_missing(
    module: crate::model::CqModule,
    relations: Seq<crate::dataset::RelationData>,
    m: int,
    assignment: Map<Seq<char>, i32>,
)
    requires
        0 <= m < module.body@.len(),
        head_keeps_body(module),
        satisfies_except(module, relations, assignment, m),
        !relations[crate::analysis::position_of(module.inputs@, module.body@[m])].rows_spec().contains(atom_row(module.body@[m], assignment)),
    ensures
        !in_result(module, relations, atom_row(module.head, assignment)),
{
    let head = module.head.vars();
    let atom = module.body@[m];
    if in_result(module, relations, atom_row(module.head, assignment)) {
        let b = choose|b: Map<Seq<char>, i32>| #[trigger] satisfies(module, relations, b) && atom_row(module.head, b) == atom_row(module.head, assignment);
        assert(atom_row(atom, b) =~= atom_row(atom, assignment)) by {
            assert forall|c: int| 0 <= c < atom.vars().len() implies b[atom.vars()[c]] == assignment[atom.vars()[c]] by {
                assert(head.contains(module.body@[m].vars()[c]));
                let h = choose|h: int| 0 <= h < head.len() && head[h] == atom.vars()[c];
                assert(atom_row(module.head, b)[h] == atom_row(module.head, assignment)[h]);
            }
        }
        assert(relations[crate::analysis::position_of(module.inputs@, module.body@[m])].rows_spec().contains(atom_row(module.body@[m], b)));
    }
}

/// Occurrence `k` is a partial lookup: earlier atoms bind some but not all
/// of its columns.
pub open spec fn partial_access(atoms: Seq<Atom>, k: int) -> bool {
    let vars = atoms[k].vars();
    let key = crate::analysis::bound_columns(vars, crate::analysis::first_occurrences(crate::analysis::flat_vars(atoms.take(k))), vars.len());
    key.len() > 0 && key.len() < vars.len()
}

/// Two answers read rows of occurrence `k` that agree on every column
/// bound by earlier atoms and still differ: a lookup of that key finds two
/// complements, and both survive to an answer.
pub open spec fn complements_observable(module: crate::model::CqModule, relations: Seq<crate::dataset::RelationData>, k: int) -> bool {
    let atom = module.body@[k];
    let bound = crate::analysis::first_occurrences(crate::analysis::flat_vars(module.body@.take(k)));
    exists|first: Map<Seq<char>, i32>, second: Map<Seq<char>, i32>|
        #![trigger satisfies(module, relations, first), satisfies(module, relations, second)]
        satisfies(module, relations, first) && satisfies(module, relations, second)
        && (forall|c: int| 0 <= c < atom.vars().len() && bound.contains(#[trigger] atom.vars()[c]) ==> atom_row(atom, first)[c] == atom_row(atom, second)[c])
        && atom_row(atom, first) != atom_row(atom, second)
}

/// The key columns of occurrence `k`: those that earlier atoms bind.
pub open spec fn key_columns_at(atoms: Seq<Atom>, k: int) -> Seq<usize> {
    let vars = atoms[k].vars();
    crate::analysis::bound_columns(vars, crate::analysis::first_occurrences(crate::analysis::flat_vars(atoms.take(k))), vars.len())
}

/// `x` agrees with `y` on every column in `columns`.
pub open spec fn agrees_on(x: Seq<i32>, y: Seq<i32>, columns: Seq<usize>) -> bool {
    forall|i: int| 0 <= i < columns.len() ==> columns[i] < x.len() && #[trigger] x[columns[i] as int] == y[columns[i] as int]
}

/// An earlier occurrence of the same input reads, at every key column of
/// occurrence `k`, the variable that `k` reads there: the prefix itself
/// supplies the key, and no lookup of `k` can miss.
pub open spec fn prefix_supplies_key(module: crate::model::CqModule, k: int) -> bool {
    exists|j: int| #[trigger] supplies_variables_at(module, k, j)
}

/// Occurrence `j`, before `k` and of the same input, reads at every key
/// column of `k` the variable that `k` reads there.
pub open spec fn supplies_variables_at(module: crate::model::CqModule, k: int, j: int) -> bool {
    let atoms = module.body@;
    let columns = key_columns_at(atoms, k);
    &&& 0 <= j < k
    &&& crate::analysis::position_of(module.inputs@, atoms[j]) == crate::analysis::position_of(module.inputs@, atoms[k])
    &&& forall|i: int| #![trigger columns[i]] 0 <= i < columns.len() ==> columns[i] < atoms[j].vars().len()
        && atoms[j].vars()[columns[i] as int] == atoms[k].vars()[columns[i] as int]
}

/// An earlier occurrence that reads the key slots of occurrence `k` reads
/// its key variables.
proof fn lemma_supplied_variables(
    module: crate::model::CqModule,
    positions: Seq<usize>,
    slots: Seq<Vec<usize>>,
    names: Seq<Seq<char>>,
    k: int,
    j: int,
)
    requires
        supplies_key_at(positions, slots, k, key_columns_at(module.body@, k), j),
        crate::analysis::slots_spec(module.body@, names, slots),
        positions.len() == module.body@.len(),
        forall|x: int| 0 <= x < module.body@.len() ==> #[trigger] positions[x] == crate::analysis::position_of(module.inputs@, module.body@[x]),
        0 <= k < module.body@.len(),
    ensures
        supplies_variables_at(module, k, j),
        prefix_supplies_key(module, k),
{
    let atoms = module.body@;
    let cols = key_columns_at(atoms, k);
    assert(atoms[k].variables@.len() == atoms[k].variables.len());
    crate::analysis::lemma_bound_columns_all(atoms[k].vars(), crate::analysis::first_occurrences(crate::analysis::flat_vars(atoms.take(k))), atoms[k].vars().len());
    assert(positions[j] == crate::analysis::position_of(module.inputs@, atoms[j]));
    assert(positions[k] == crate::analysis::position_of(module.inputs@, atoms[k]));
    assert forall|i: int| #![trigger cols[i]] 0 <= i < cols.len() implies cols[i] < atoms[j].vars().len()
        && atoms[j].vars()[cols[i] as int] == atoms[k].vars()[cols[i] as int] by {
        let c = cols[i] as int;
        assert(cols[i] < slots[j]@.len() && slots[j]@[cols[i] as int] == slots[k]@[cols[i] as int]);
        assert(names[slots[j]@[c] as int] == atoms[j].vars()[c]);
        assert(names[slots[k]@[c] as int] == atoms[k].vars()[c]);
    }
    assert(supplies_variables_at(module, k, j));
}

/// Evaluating the body in order reaches occurrence `k` under an assignment
/// whose key there no row of its input holds: the lookup misses.
pub open spec fn missing_key_reachable(module: crate::model::CqModule, relations: Seq<crate::dataset::RelationData>, k: int) -> bool {
    let atoms = module.body@;
    exists|a: Map<Seq<char>, i32>|
        #[trigger] prefix_satisfied(module, relations, a, k)
            && forall|x: Seq<i32>| #[trigger] relations[crate::analysis::position_of(module.inputs@, atoms[k])].rows_spec().contains(x)
                ==> !agrees_on(x, atom_row(atoms[k], a), key_columns_at(atoms, k))
}

/// Under `assignment`, every body atom before occurrence `k` finds its row.
pub open spec fn prefix_satisfied(
    module: crate::model::CqModule,
    relations: Seq<crate::dataset::RelationData>,
    assignment: Map<Seq<char>, i32>,
    k: int,
) -> bool {
    forall|j: int|
        0 <= j < k ==> relations[crate::analysis::position_of(module.inputs@, module.body@[j])].rows_spec().contains(
            #[trigger] atom_row(module.body@[j], assignment),
        )
}

/// A lowering that stops comparing column `c` of occurrence `k` admits an
/// assignment that the query rejects: every other occurrence finds its row,
/// the row of `k` is absent, and that row with column `c` changed is present.
pub open spec fn decoy_observable(module: crate::model::CqModule, relations: Seq<crate::dataset::RelationData>, k: int, c: int) -> bool {
    let atoms = module.body@;
    exists|a: Map<Seq<char>, i32>|
        #[trigger] satisfies_except(module, relations, a, k)
            && !relations[crate::analysis::position_of(module.inputs@, atoms[k])].rows_spec().contains(atom_row(atoms[k], a))
            && exists|v: i32| relations[crate::analysis::position_of(module.inputs@, atoms[k])].rows_spec().contains(#[trigger] atom_row(atoms[k], a).update(c, v))
}

/// Evaluating the body in order reaches occurrence `k` under an assignment
/// whose key there finds at least two rows of its input: a multi-candidate
/// bucket.
pub open spec fn multi_candidate_bucket(module: crate::model::CqModule, relations: Seq<crate::dataset::RelationData>, k: int) -> bool {
    let atoms = module.body@;
    let rows = relations[crate::analysis::position_of(module.inputs@, atoms[k])].rows_spec();
    exists|a: Map<Seq<char>, i32>, first: Seq<i32>, second: Seq<i32>|
        #![trigger prefix_satisfied(module, relations, a, k), rows.contains(first), rows.contains(second)]
        prefix_satisfied(module, relations, a, k) && rows.contains(first) && rows.contains(second) && first != second
            && agrees_on(first, atom_row(atoms[k], a), key_columns_at(atoms, k))
            && agrees_on(second, atom_row(atoms[k], a), key_columns_at(atoms, k))
}

/// Two surviving complements of one key make the bucket of that key hold
/// both of their rows.
proof fn lemma_complements_fill_bucket(module: crate::model::CqModule, relations: Seq<crate::dataset::RelationData>, k: int)
    requires
        complements_observable(module, relations, k),
        0 <= k < module.body@.len(),
        forall|c: int| 0 <= c < key_columns_at(module.body@, k).len() ==> #[trigger] key_columns_at(module.body@, k)[c] < module.body@[k].vars().len(),
        forall|c: int| 0 <= c < key_columns_at(module.body@, k).len() ==> crate::analysis::first_occurrences(crate::analysis::flat_vars(module.body@.take(k))).contains(#[trigger] module.body@[k].vars()[key_columns_at(module.body@, k)[c] as int]),
    ensures
        multi_candidate_bucket(module, relations, k),
{
    let atoms = module.body@;
    let atom = atoms[k];
    let cols = key_columns_at(atoms, k);
    let bound = crate::analysis::first_occurrences(crate::analysis::flat_vars(atoms.take(k)));
    let (a1, a2) = choose|first: Map<Seq<char>, i32>, second: Map<Seq<char>, i32>|
        #![trigger satisfies(module, relations, first), satisfies(module, relations, second)]
        satisfies(module, relations, first) && satisfies(module, relations, second)
        && (forall|c: int| 0 <= c < atom.vars().len() && bound.contains(#[trigger] atom.vars()[c]) ==> atom_row(atom, first)[c] == atom_row(atom, second)[c])
        && atom_row(atom, first) != atom_row(atom, second);
    let rows = relations[crate::analysis::position_of(module.inputs@, atom)].rows_spec();
    let x1 = atom_row(atom, a1);
    let x2 = atom_row(atom, a2);
    assert(rows.contains(x1));
    assert(rows.contains(x2));
    assert forall|j: int| 0 <= j < k implies relations[crate::analysis::position_of(module.inputs@, atoms[j])].rows_spec().contains(#[trigger] atom_row(atoms[j], a1)) by {
        assert(relations[crate::analysis::position_of(module.inputs@, atoms[j])].rows_spec().contains(atom_row(atoms[j], a1)));
    }
    assert(prefix_satisfied(module, relations, a1, k));
    assert forall|i: int| 0 <= i < cols.len() implies cols[i] < x2.len() && #[trigger] x2[cols[i] as int] == x1[cols[i] as int] by {
        assert(cols[i] < atom.vars().len());
        assert(bound.contains(atom.vars()[cols[i] as int]));
    }
    assert(agrees_on(x1, x1, cols));
    assert(agrees_on(x2, x1, cols));
}

/// The assignment that gives variable `names[i]` the value `values[i]`.
pub open spec fn assignment_of(names: Seq<Seq<char>>, values: Seq<i32>) -> Map<Seq<char>, i32> {
    Map::new(
        |v: Seq<char>| true,
        |v: Seq<char>| if names.contains(v) {
            values[choose|i: int| 0 <= i < names.len() && names[i] == v]
        } else {
            0i32
        },
    )
}

/// An atom reads, from the assignment of a value list, the projection of
/// that list on its variable slots.
proof fn lemma_assignment_rows(atoms: Seq<Atom>, names: Seq<Seq<char>>, slots: Seq<Vec<usize>>, values: Seq<i32>, k: int)
    requires
        crate::analysis::slots_spec(atoms, names, slots),
        names.no_duplicates(),
        0 <= k < atoms.len(),
    ensures
        atom_row(atoms[k], assignment_of(names, values)) == project_spec(slots[k]@, values),
{
    let a = assignment_of(names, values);
    let row = project_spec(slots[k]@, values);
    assert forall|c: int| 0 <= c < row.len() implies row[c] == #[trigger] atom_row(atoms[k], a)[c] by {
        let sl = slots[k]@[c] as int;
        assert(names[sl] == atoms[k].vars()[c]);
        let i = choose|i: int| 0 <= i < names.len() && names[i] == names[sl];
        assert(i == sl);
    }
    assert(row =~= atom_row(atoms[k], a));
}

/// A value list witnessed by every occurrence in rows that the relations
/// hold gives an answer of the query.
proof fn lemma_witnessed_answer(
    module: crate::model::CqModule,
    relations: Seq<crate::dataset::RelationData>,
    rows: Seq<RowSet>,
    positions: Seq<usize>,
    slots: Seq<Vec<usize>>,
    names: Seq<Seq<char>>,
    values: Seq<i32>,
)
    requires
        witnessed(rows, positions, slots, values),
        positions.len() == module.body@.len(),
        forall|k: int| 0 <= k < module.body@.len() ==> #[trigger] positions[k] == crate::analysis::position_of(module.inputs@, module.body@[k]),
        forall|p: int, x: Seq<i32>| 0 <= p < rows.len() && #[trigger] rows[p]@.to_set().contains(x) ==> relations[p].rows_spec().contains(x),
        forall|k: int| 0 <= k < positions.len() ==> #[trigger] positions[k] < rows.len(),
        crate::analysis::slots_spec(module.body@, names, slots),
        names.no_duplicates(),
    ensures
        satisfies(module, relations, assignment_of(names, values)),
{
    let a = assignment_of(names, values);
    assert forall|k: int| 0 <= k < module.body@.len() implies relations[crate::analysis::position_of(module.inputs@, module.body@[k])].rows_spec().contains(
        #[trigger] atom_row(module.body@[k], a),
    ) by {
        let p = positions[k] as int;
        assert(rows[p]@.to_set().contains(project_spec(slots[k]@, values)));
        lemma_assignment_rows(module.body@, names, slots, values, k);
    }
}

/// The query projects some body variable away.
pub open spec fn projects_away(module: crate::model::CqModule) -> bool {
    crate::analysis::without(crate::analysis::first_occurrences(crate::analysis::flat_vars(module.body@)), module.head.vars()).len() > 0
}

/// Two answers of the query read the same head tuple but differ on a body
/// variable: the result's set semantics is observable.
pub open spec fn shared_head_observable(module: crate::model::CqModule, relations: Seq<crate::dataset::RelationData>) -> bool {
    exists|a1: Map<Seq<char>, i32>, a2: Map<Seq<char>, i32>|
        #![trigger satisfies(module, relations, a1), satisfies(module, relations, a2)]
        satisfies(module, relations, a1) && satisfies(module, relations, a2) && atom_row(module.head, a1) == atom_row(module.head, a2)
            && exists|v: Seq<char>| crate::analysis::flat_vars(module.body@).contains(v) && a1[v] != a2[v]
}

proof fn lemma_total_columns_grow(inputs: Seq<crate::model::RelationDecl>, p1: int, p2: int)
    requires
        0 <= p1 < p2 <= inputs.len(),
        total_columns(inputs, inputs.len()) < 2048,
    ensures
        total_columns(inputs, p1 as nat) + inputs[p1].arity <= total_columns(inputs, p2 as nat),
{
    lemma_total_columns_exact(inputs, (p2 - 1) as nat, inputs.len());
    lemma_total_columns_exact(inputs, p1 as nat, p2 as nat);
}

/// When every row of every input is noise from that input's own
/// namespaces, a variable read from two different input columns cannot take
/// one value in both: the query has no answer.
proof fn lemma_conflict_has_no_answer(module: crate::model::CqModule, relations: Seq<crate::dataset::RelationData>)
    requires
        crate::analysis::domain_conflict(module.body@, module.inputs@, module.body@.len() as int),
        forall|k: int| 0 <= k < module.body@.len() ==> 0 <= #[trigger] crate::analysis::position_of(module.inputs@, module.body@[k]) < module.inputs@.len(),
        crate::dataset::relations_match(relations, module.inputs@),
        total_columns(module.inputs@, module.inputs@.len()) < 2048,
        forall|p: int, x: Seq<i32>| 0 <= p < relations.len() && #[trigger] relations[p].rows_spec().contains(x) ==> in_noise_domain(
            x,
            total_columns(module.inputs@, p as nat) as int,
        ),
    ensures
        !has_answer(module, relations),
{
    let atoms = module.body@;
    let inputs = module.inputs@;
    let n = atoms.len() as int;
    assert forall|a: Map<Seq<char>, i32>| !satisfies(module, relations, a) by {
        if satisfies(module, relations, a) {
            let (j1, c1, j2, c2) = choose|j1: int, c1: int, j2: int, c2: int|
                0 <= j1 && 0 <= j2 && crate::analysis::before(j1, c1, n, 0) && crate::analysis::before(j2, c2, n, 0)
                    && 0 <= c1 < atoms[j1].vars().len() && 0 <= c2 < atoms[j2].vars().len()
                    && #[trigger] atoms[j1].vars()[c1] == #[trigger] atoms[j2].vars()[c2]
                    && (crate::analysis::position_of(inputs, atoms[j1]) != crate::analysis::position_of(inputs, atoms[j2]) || c1 != c2);
            let p1 = crate::analysis::position_of(inputs, atoms[j1]);
            let p2 = crate::analysis::position_of(inputs, atoms[j2]);
            let r1 = atom_row(atoms[j1], a);
            let r2 = atom_row(atoms[j2], a);
            assert(relations[p1].rows_spec().contains(r1));
            assert(relations[p2].rows_spec().contains(r2));
            assert(relations[p1].well_formed() && relations[p2].well_formed());
            let i1 = choose|i: int| 0 <= i < relations[p1].rows_spec().len() && relations[p1].rows_spec()[i] == r1;
            let i2 = choose|i: int| 0 <= i < relations[p2].rows_spec().len() && relations[p2].rows_spec()[i] == r2;
            assert(r1.len() == inputs[p1].arity);
            assert(r2.len() == inputs[p2].arity);
            let ns1 = total_columns(inputs, p1 as nat) + c1;
            let ns2 = total_columns(inputs, p2 as nat) + c2;
            assert(noise_base(ns1) <= r1[c1] < noise_base(ns1) + NOISE_DOMAIN_WIDTH);
            assert(noise_base(ns2) <= r2[c2] < noise_base(ns2) + NOISE_DOMAIN_WIDTH);
            assert(r1[c1] == r2[c2]);
            if p1 < p2 {
                lemma_total_columns_grow(inputs, p1, p2);
            } else if p2 < p1 {
                lemma_total_columns_grow(inputs, p2, p1);
            }
            assert(ns1 != ns2);
        }
    }
}

/// Generate data for a query: plant the scenario's proofs and edge cases,
/// fill every input with disjoint noise to the row target, empty one input
/// for the empty-input scenario, then duplicate and shuffle the raw rows.
#[verifier::rlimit(100)]
#[verifier::spinoff_prover]
pub fn generate_module(
    module: &crate::model::CqModule,
    suite: crate::Suite,
    case_name: String,
    config: crate::GenerationConfig,
) -> (r: Result<crate::dataset::Dataset, GenerateError>)
    ensures
        generation_outcome(*module, suite, case_name@, config, r),
{
    let atoms = &module.body;
    let inputs = &module.inputs;
    let relation_count = inputs.len();
    let components = crate::analysis::connected_components(atoms);
    let limits = Limits::for_shape(config.scale, components);
    let variables = crate::analysis::variable_order(atoms);
    let accesses = crate::analysis::access_patterns(atoms);
    let memberships = crate::analysis::membership_occurrences(atoms, &accesses);
    proof {
        assert(atoms@.len() == atoms.len());
        lemma_memberships_judge(atoms@, memberships@);
    }
    let ghost no_match_owed = config.scenario == Scenario::NoMatch && scenario_admitted(*module, Scenario::NoMatch)
        && crate::analysis::first_unknown(module.body@, module.inputs@) == module.body@.len() && small_query(*module)
        && inputs_well_formed(*module) && noise_space_fits(total_columns(module.inputs@, module.inputs@.len()) as int)
        && crate::dataset::manifest_token_ok(case_name@);
    let ghost coverage_owed = (config.scenario == Scenario::Coverage || (config.scenario == Scenario::EmptyInput && module.body@.len() > 0))
        && crate::analysis::first_unknown(module.body@, module.inputs@) == module.body@.len() && small_query(*module)
        && inputs_well_formed(*module) && noise_space_fits(total_columns(module.inputs@, module.inputs@.len()) as int)
        && crate::dataset::manifest_token_ok(case_name@) && scenario_admitted(*module, Scenario::Coverage) && atoms_have_columns(*module)
        && widths_declared(*module) && body_fits_rows(*module, config.scale);
    let checked = crate::analysis::check_scenario_analysis(atoms, inputs, &memberships, config.scenario);
    proof {
        if config.scenario != Scenario::NoMatch && checked is Err {
            lemma_first_refusal(atoms@, memberships@, checked->Err_0);
        }
    }
    checked?;
    let positions = crate::analysis::atom_positions(atoms, inputs)?;
    let slots = crate::analysis::atom_slots(atoms, &variables);
    let mut rows = empty_sets(relation_count);
    let ghost initial = rows@;
    let mut rng = SplitMix64::new(config.seed);
    let existentials = crate::analysis::existential_variables(&module.head, &variables);
    proof {
        if small_query(*module) {
            let a = atoms@.len();
            lemma_partial_count_bound(accesses@, atoms@, accesses@.len());
            lemma_composite_total_bound(accesses@, atoms@, accesses@.len(), 4096);
            assert(accesses@.len() * 4096 <= 4096 * 4096) by (nonlinear_arith) requires accesses@.len() <= 4096;
            assert(crate::analysis::edge_marker_total(accesses@, atoms@, existentials.len() > 0) <= 2 * 4096 + 4096 * 4096 + 1);
        }
    }
    let edge_count = crate::analysis::edge_marker_count(&accesses, atoms, existentials.len() > 0)?;
    proof {
        if small_query(*module) {
            lemma_increasing_len(memberships@, atoms@.len() as int);
            assert(variables@.len() == names_view(variables@).len());
            let vc = variables@.len() as int;
            let mc = memberships@.len() as int;
            let ec = edge_count as int;
            let cs = limits.planted_witnesses + 1;
            assert(vc * cs <= 4096 * 1_000_001) by (nonlinear_arith) requires 0 <= vc <= 4096, 0 <= cs <= 1_000_001;
            assert(vc * (mc + 1) <= 4096 * 4097) by (nonlinear_arith) requires 0 <= vc <= 4096, 0 <= mc <= 4096;
            assert(vc * (ec + 1) <= 4096 * (2 * 4096 + 4096 * 4096 + 2)) by (nonlinear_arith)
                requires 0 <= vc <= 4096, 0 <= ec <= 2 * 4096 + 4096 * 4096 + 1;
        }
    }
    let ghost seed_state = rng@;
    let layout = PlantingLayout::new(&mut rng, limits, variables.len(), memberships.len(), edge_count)?;
    assert(layout.complete_base == seeded_base(config.seed) && layout.complete_stride == limits.planted_witnesses + 1);
    let mut active: Vec<Option<Vec<i32>>> = Vec::new();
    for p in 0..relation_count
        invariant
            active@.len() == p,
            forall|q: int| 0 <= q < p ==> #[trigger] active@[q] is None,
    {
        active.push(None);
    }
    proof {
        let vc = variables@.len() as int;
        let cs = layout.complete_stride as int;
        let ast = layout.anti_stride as int;
        let es = layout.edge_stride as int;
        assert(vc * cs >= 0) by (nonlinear_arith) requires vc >= 0, cs >= 0;
        assert(vc * ast >= 0) by (nonlinear_arith) requires vc >= 0, ast >= 0;
        assert(vc * es >= 0) by (nonlinear_arith) requires vc >= 0, es >= 0;
        assert forall|p: int| 0 <= p < rows@.len() implies positive_set(#[trigger] rows@[p]@.to_set()) by {
            assert(rows@[p]@.len() == 0);
            assert(rows@[p]@.to_set() =~= Set::<Seq<i32>>::empty());
        }
        assert(planting_ok(rows@, active@, relation_count as nat, limits.distinct_rows as nat));
    }
    proof {
        let w = crate::analysis::without(names_view(variables@), module.head.vars());
        assert forall|e: int| 0 <= e < existentials@.len() implies names_view(variables@).contains(#[trigger] existentials@[e]@) by {
            assert(w[e] == existentials@[e]@);
            assert(w.contains(existentials@[e]@));
            lemma_without_contains(names_view(variables@), module.head.vars(), existentials@[e]@);
        }
    }
    proof {
        if coverage_owed {
            lemma_increasing_len(memberships@, atoms@.len() as int);
            crate::analysis::lemma_first_unknown(atoms@, inputs@);
            assert(composites_distinct(positions@, slots@, accesses@)) by {
                assert forall|i: int, k: int|
                    #![trigger accesses@[i], slots@[k]]
                    0 <= i < accesses@.len() && accesses@[i].key_columns@.len() >= 2 && 0 <= k < positions@.len() && k != i && positions@[k] == positions@[i]
                    implies slots@[k]@ != slots@[i]@ by {
                    if slots@[k]@ == slots@[i]@ {
                        let names = names_view(variables@);
                        assert(crate::analysis::slots_spec(atoms@, names, slots@));
                        assert(atoms@[k].vars() =~= atoms@[i].vars()) by {
                            assert forall|c: int| 0 <= c < atoms@[k].vars().len() implies atoms@[k].vars()[c] == atoms@[i].vars()[c] by {
                                assert(names[slots@[k]@[c] as int] == atoms@[k].vars()[c]);
                                assert(names[slots@[i]@[c] as int] == atoms@[i].vars()[c]);
                            }
                        }
                        assert(positions@[k] == crate::analysis::position_of(inputs@, atoms@[k]));
                        assert(positions@[i] == crate::analysis::position_of(inputs@, atoms@[i]));
                        assert(crate::model::input_position(inputs@, atoms@[k].rel()) is Some);
                        assert(crate::model::input_position(inputs@, atoms@[i].rel()) is Some);
                        crate::model::lemma_input_position(inputs@, atoms@[k].rel());
                        crate::model::lemma_input_position(inputs@, atoms@[i].rel());
                        assert(atoms@[k].rel() == atoms@[i].rel());
                        let l = if k < i { i } else { k };
                        let e = if k < i { k } else { i };
                        lemma_repeat_is_membership(atoms@, e, l);
                        assert(crate::analysis::duplicated_occurrence(atoms@, l));
                    }
                }
            }
            assert(memberships_distinct(positions@, slots@, memberships@)) by {
                assert forall|j: int, k: int|
                    #![trigger memberships@[j], slots@[k]]
                    0 <= j < memberships@.len() && 0 <= k < positions@.len() && k != memberships@[j] && positions@[k] == positions@[memberships@[j] as int]
                    implies slots@[k]@ != slots@[memberships@[j] as int]@ by {
                    let m = memberships@[j] as int;
                    if slots@[k]@ == slots@[m]@ {
                        let names = names_view(variables@);
                        assert(crate::analysis::slots_spec(atoms@, names, slots@));
                        assert(atoms@[k].vars() =~= atoms@[m].vars()) by {
                            assert forall|c: int| 0 <= c < atoms@[k].vars().len() implies atoms@[k].vars()[c] == atoms@[m].vars()[c] by {
                                assert(names[slots@[k]@[c] as int] == atoms@[k].vars()[c]);
                                assert(names[slots@[m]@[c] as int] == atoms@[m].vars()[c]);
                            }
                        }
                        assert(positions@[k] == crate::analysis::position_of(inputs@, atoms@[k]));
                        assert(positions@[m] == crate::analysis::position_of(inputs@, atoms@[m]));
                        assert(crate::model::input_position(inputs@, atoms@[k].rel()) is Some);
                        assert(crate::model::input_position(inputs@, atoms@[m].rel()) is Some);
                        crate::model::lemma_input_position(inputs@, atoms@[k].rel());
                        crate::model::lemma_input_position(inputs@, atoms@[m].rel());
                        assert(atoms@[k].rel() == atoms@[m].rel());
                        assert(crate::analysis::duplicated_occurrence(atoms@, m));
                        assert(crate::analysis::is_membership(atoms@, m));
                    }
                }
            }
            assert forall|j: int| 0 <= j < memberships@.len() implies (#[trigger] slots@[memberships@[j] as int])@.len() > 0 by {
                assert(atoms@[memberships@[j] as int].vars().len() > 0);
            }
            assert(values_below(rows@, layout.anti_base as int)) by {
                assert forall|p: int, x: Seq<i32>, c: int|
                    #![trigger rows@[p]@.to_set().contains(x), x[c]]
                    0 <= p < rows@.len() && rows@[p]@.to_set().contains(x) && 0 <= c < x.len() implies x[c] < layout.anti_base by {
                    assert(rows@[p]@.len() == 0);
                    assert(rows@[p]@.to_set() =~= Set::<Seq<i32>>::empty());
                }
            }
            let (vc0, mc0) = (variables@.len() as int, memberships@.len() as int);
            let cs0 = layout.complete_stride as int;
            assert(vc0 * cs0 <= 4096 * 4097) by (nonlinear_arith) requires 0 <= vc0 <= 4096, 0 <= cs0 <= 4097;
            assert(vc0 * (mc0 + 1) <= 4096 * 4097) by (nonlinear_arith) requires 0 <= vc0 <= 4096, 0 <= mc0 <= 4096;
            assert(layout.edge_base <= i32::MAX);
            let a = atoms@.len() as int;
            assert(shape_limits(config.scale, crate::analysis::component_count(module.body@, module.body@.len()), limits));
            lemma_composite_width(accesses@, atoms@, accesses@.len());
            lemma_partial_width(accesses@, atoms@, accesses@.len());
            lemma_membership_width(atoms@, memberships@, atoms@.len() as nat);
            lemma_composite_total_bound(accesses@, atoms@, accesses@.len(), 256);
            lemma_partial_count_bound(accesses@, atoms@, accesses@.len());
            let pt = crate::analysis::partial_count(accesses@, atoms@, accesses@.len()) as int;
            let cm = crate::analysis::composite_key_total(accesses@, accesses@.len()) as int;
            assert(pt <= a);
            assert(a * 256 <= 256 * 256) by (nonlinear_arith) requires 0 <= a <= 256;
            assert(cm <= 256 * 256);
            assert(edge_count <= 2 * 256 + 256 * 256 + 1);
            let ex = existentials@.len() as int;
            assert(ex <= vc0) by {
                lemma_without_len(names_view(variables@), module.head.vars());
                assert(names_view(existentials@).len() == ex);
                assert(names_view(variables@).len() == vc0);
            }
            let es0 = layout.edge_stride as int;
            assert(vc0 <= 256);
            assert(vc0 * cs0 <= 256 * 4097) by (nonlinear_arith) requires 0 <= vc0 <= 256, 0 <= cs0 <= 4097;
            assert(vc0 * (mc0 + 1) <= 256 * 257) by (nonlinear_arith) requires 0 <= vc0 <= 256, 0 <= mc0 <= 256;
            assert(vc0 * es0 <= 256 * (2 * 256 + 256 * 256 + 2)) by (nonlinear_arith) requires 0 <= vc0 <= 256, 0 <= es0 <= 2 * 256 + 256 * 256 + 2;
            assert(pt * vc0 <= 256 * 256) by (nonlinear_arith) requires 0 <= vc0 <= 256, 0 <= pt <= 256;
            assert(layout.fresh_base + cm + pt * variables@.len() + existentials@.len() <= i32::MAX);
            let cw = composite_width(atoms@, atoms@.len() as nat) as int;
            let pw0 = partial_width(atoms@, atoms@.len() as nat) as int;
            let mw0 = membership_width(atoms@, atoms@.len() as nat) as int;
            assert((mc0 + 3 + 3 * pt + 2 * cm) * a <= (mw0 + 3 + 3 * pw0 + 2 * cw) * a) by (nonlinear_arith)
                requires 0 <= mc0 <= mw0, pt == pw0, cm == cw, a >= 0;
            assert forall|p: int| 0 <= p < rows@.len() implies (#[trigger] rows@[p])@.len() + (memberships@.len() + 3 + 3 * pt + 2 * cm) * positions@.len()
                <= limits.distinct_rows by {
                assert(rows@[p]@.len() == 0);
            }
            let vc = variables@.len() as int;
            let pw = limits.planted_witnesses as int;
            let cb = layout.complete_base as int;
            assert(vc <= 4096);
            if vc > 0 {
                assert((vc - 1) * (pw + 1) <= 4095 * 4097) by (nonlinear_arith) requires 1 <= vc <= 4096, 0 <= pw <= 4096;
                lemma_planted_value_grows(cb, pw + 1, vc - 1, vc - 1, 0);
                assert(planted_value(cb, pw + 1, vc - 1, 0) <= i32::MAX);
                assert(planted_value(cb, pw + 1, vc - 1, pw - 1) <= i32::MAX);
            }
        }
    }
    if config.scenario != Scenario::NoMatch {
        plant_coverage(atoms, &positions, &slots, &accesses, &variables, &existentials, &memberships, relation_count, limits, layout, &mut rows, &mut active)?;
    }
    proof {
        if coverage_owed {
            assert forall|p: int, x: Seq<i32>| 0 <= p < rows@.len() && #[trigger] rows@[p]@.to_set().contains(x) implies x.len() == inputs@[p].arity by {
                assert(initial[p]@.len() == 0);
                assert(initial[p]@.to_set() =~= Set::<Seq<i32>>::empty());
                let k = choose|k: int| 0 <= k < positions@.len() && positions@[k] == p && x.len() == (#[trigger] slots@[k])@.len();
                assert(positions@[k] == crate::analysis::position_of(inputs@, atoms@[k]));
            }
        }
    }
    let ghost planted_active = active@;
    assert(planting_ok(rows@, active@, relation_count as nat, limits.distinct_rows as nat));
    let ghost cover_values = witness_values(layout, variables@.len() as nat, 0);
    let ghost planted = rows@;
    let ghost fill_state = rng@;
    fill_noise(inputs, limits, &mut rng, &mut rows)?;
    let ghost drawn = rng@;
    let ghost filled = rows@;
    proof {
        assert forall|p: int, x: Seq<i32>| 0 <= p < filled.len() && #[trigger] filled[p]@.to_set().contains(x) && !planted[p]@.to_set().contains(x)
            implies avoids_range(x, layout.edge_base as int, layout.fresh_base as int) by {
            assert(negative_row(x));
            assert forall|c: int| 0 <= c < x.len() implies #[trigger] x[c] < layout.edge_base || x[c] >= layout.fresh_base by {
                assert(x[c] < 0);
            }
        }
        lemma_clear_from(planted, filled, layout, layout.edge_stride as int);
    }
    proof {
        assert forall|p: int| 0 <= p < active@.len() implies (#[trigger] active@[p] matches Some(d) ==> rows@[p]@.to_set().contains(d@)) by {
            assert(planted[p]@.to_set().subset_of(rows@[p]@.to_set()));
        }
    }
    let ghost mut emptied: int = -1;
    if config.scenario == Scenario::EmptyInput {
        let empty_input = crate::analysis::deepest_first_used_input(atoms, inputs)?;
        proof {
            crate::model::lemma_input_position(inputs@, atoms@.last().rel());
            crate::analysis::lemma_first_unknown(atoms@, inputs@);
            emptied = empty_input as int;
        }
        let mut cleared = RowSet::new();
        std::mem::swap(&mut cleared, &mut rows[empty_input]);
        active.set(empty_input, None);
    }
    let ghost sets = rows@;
    proof {
        assert forall|p: int| 0 <= p < sets.len() && inputs@[p].arity > 0 implies (#[trigger] sets[p])@.len() == limits.distinct_rows
            || (config.scenario == Scenario::EmptyInput && sets[p]@.len() == 0) by {
            if sets[p] == filled[p] {
                assert(planted[p]@.len() <= limits.distinct_rows);
            }
        }
    }
    let ghost final_active = active@;
    proof {
        if coverage_owed {
            assert forall|p: int| 0 <= p < inputs@.len() implies crate::dataset::relation_name_ok((#[trigger] inputs@[p]).name@) && inputs@[p].arity > 0
                && forall|x: Seq<i32>| #[trigger] sets[p]@.to_set().contains(x) ==> x.len() == inputs@[p].arity by {
                assert forall|x: Seq<i32>| #[trigger] sets[p]@.to_set().contains(x) implies x.len() == inputs@[p].arity by {
                    if sets[p] != filled[p] {
                        assert(sets[p]@.len() == 0);
                    } else if !planted[p]@.to_set().contains(x) {
                        assert(filled[p]@.to_set().contains(x));
                    }
                }
            }
        }
        if no_match_owed {
            assert(planted == initial);
            assert forall|p: int| 0 <= p < inputs@.len() implies crate::dataset::relation_name_ok((#[trigger] inputs@[p]).name@) && inputs@[p].arity > 0
                && forall|x: Seq<i32>| #[trigger] sets[p]@.to_set().contains(x) ==> x.len() == inputs@[p].arity by {
                assert forall|x: Seq<i32>| #[trigger] sets[p]@.to_set().contains(x) implies x.len() == inputs@[p].arity by {
                    assert(initial[p]@.len() == 0);
                    assert(!planted[p]@.to_set().contains(x));
                }
            }
        }
    }
    let relations = materialize_relations(inputs, rows, active, &mut rng)?;
    let ghost rels = relations@;
    proof {
        assert(fill_state == config.seed.wrapping_add(splitmix_gamma()));
        assert(sets.len() == inputs@.len());
        assert forall|p: int| 0 <= p < inputs@.len() && p != emptied implies #[trigger] sets[p] == filled[p] by {}
        assert forall|p: int| 0 <= p < inputs@.len() && p != emptied implies #[trigger] final_active[p] == planted_active[p] by {}
        lemma_relations_generated(inputs@, rels, planted, planted_active, filled, sets, final_active, fill_state, drawn,
            limits.distinct_rows as nat, emptied);
    }
    proof {
        if no_match_owed || (coverage_owed && config.scenario == Scenario::Coverage) {
            assert forall|p: int| 0 <= p < rels.len() implies (#[trigger] rels[p]).rows@.len() > 0 by {
                assert(inputs@[p].arity > 0);
                assert(sets[p]@.len() == limits.distinct_rows);
            }
            lemma_no_empty_relations(rels);
            assert(crate::dataset::relations_match(rels, inputs@));
        }
        if coverage_owed && config.scenario == Scenario::EmptyInput {
            assert(0 <= emptied < rels.len());
            assert forall|p: int| 0 <= p < rels.len() && p != emptied implies (#[trigger] rels[p]).rows@.len() > 0 by {
                assert(inputs@[p].arity > 0);
                assert(sets[p]@.len() == limits.distinct_rows);
            }
            assert(rels[emptied].rows@.len() == 0) by {
                let v = rels[emptied].rows_spec();
                assert(sets[emptied]@.len() == 0);
                assert(sets[emptied]@.to_set() =~= Set::<Seq<i32>>::empty());
                if v.len() > 0 {
                    assert(v.to_set().contains(v[0]));
                }
                assert(rels[emptied].rows_spec().len() == rels[emptied].rows@.len());
            }
            lemma_one_empty_relation(rels, emptied);
            assert(crate::dataset::relations_match(rels, inputs@));
        }
    }
    match crate::dataset::Dataset::new(module, suite, case_name, config, relations) {
        Ok(d) => {
            proof {
                assert forall|p: int| 0 <= p < d.relations@.len() && module.inputs@[p].arity > 0 implies (#[trigger] d.manifest.relations@[p]).distinct_rows
                    == limits.distinct_rows || (config.scenario == Scenario::EmptyInput && d.relations@[p].rows@.len() == 0) by {
                    assert(crate::dataset::records(d.manifest.relations@[p], d.relations@[p]));
                    assert(d.relations@[p] == rels[p]);
                    assert(sets[p].wf());
                    sets[p].lemma_distinct();
                    let v = rels[p].rows_spec();
                    assert(v.to_set() == sets[p]@.to_set());
                    if sets[p]@.len() == 0 {
                        assert(sets[p]@.to_set() =~= Set::<Seq<i32>>::empty());
                        if v.len() > 0 {
                            assert(v.to_set().contains(v[0]));
                        }
                        assert(rels[p].rows@.len() == v.len());
                    }
                }
                assert(meets_row_target(d, *module, config.scenario, limits.distinct_rows as nat));
                if config.scenario == Scenario::Coverage {
                    let names = names_view(variables@);
                    crate::analysis::lemma_first_occurrences(crate::analysis::flat_vars(atoms@));
                    assert(names.no_duplicates());
                    assert(crate::analysis::slots_spec(atoms@, names, slots@));
                    assert(witnessed(planted, positions@, slots@, cover_values));
                    assert forall|p: int, x: Seq<i32>| 0 <= p < planted.len() && #[trigger] planted[p]@.to_set().contains(x)
                        implies d.relations@[p].rows_spec().contains(x) by {
                        assert(filled[p]@.to_set().contains(x));
                        assert(sets[p] == filled[p]);
                        assert(rels[p].rows_spec().to_set().contains(x));
                        assert(d.relations@[p] == rels[p]);
                    }
                    assert forall|k: int| 0 <= k < atoms@.len() implies #[trigger] positions@[k] == crate::analysis::position_of(inputs@, atoms@[k]) by {}
                    lemma_witnessed_answer(*module, d.relations@, planted, positions@, slots@, names, cover_values);
                    assert(cover_values =~= seeded_witness(config.seed, limits, names.len()));
                    assert(names == body_variables(*module));
                    assert(names_view(existentials@) == crate::analysis::without(names, module.head.vars()));
                    assert(names_view(existentials@).len() == existentials@.len());
                    assert(coverage_plan(*module, config.seed, limits, accesses@, slots@, memberships@, layout));
                    let empty = Seq::new(d.relations@.len(), |q: int| Set::<Seq<i32>>::empty());
                    assert(row_sets(initial) =~= empty) by {
                        assert forall|q: int| 0 <= q < empty.len() implies #[trigger] row_sets(initial)[q] == empty[q] by {
                            assert(initial[q]@.len() == 0);
                            assert(initial[q]@.to_set() =~= Set::<Seq<i32>>::empty());
                        }
                    }
                    let goal = coverage_sets(empty, atoms@, accesses@, positions@, slots@, memberships@, names, names_view(existentials@), layout,
                        limits.distinct_rows as nat, limits.planted_witnesses as int);
                    assert(row_sets(planted) == goal);
                    assert forall|q: int| 0 <= q < d.relations@.len() implies #[trigger] planted_part(d.relations@[q].rows_spec().to_set())
                        == planted_part(goal[q]) by {
                        assert(d.relations@[q] == rels[q]);
                        assert(sets[q] == filled[q]);
                        assert(row_sets(planted)[q] == planted[q]@.to_set());
                        assert(planted_part(rels[q].rows_spec().to_set()) =~= planted_part(goal[q])) by {
                            assert forall|x: Seq<i32>| planted_part(rels[q].rows_spec().to_set()).contains(x) implies planted_part(goal[q]).contains(x) by {
                                assert(filled[q]@.to_set().contains(x));
                            }
                            assert forall|x: Seq<i32>| planted_part(goal[q]).contains(x) implies planted_part(rels[q].rows_spec().to_set()).contains(x) by {
                                assert(planted[q]@.to_set().subset_of(filled[q]@.to_set()));
                            }
                        }
                    }
                    assert(body_positions(*module) =~= positions@);
                    assert(primary_markers(planted_active, positions@, slots@, layout, names.len(), d.relations@.len()));
                    assert(d.relations@ == rels);
                    assert(relations_generated(inputs@, d.relations@, goal, planted_active, config.seed.wrapping_add(splitmix_gamma()),
                        limits.distinct_rows as nat, -1));
                    assert(goal == planned_sets(*module, limits, d.relations@.len(), accesses@, slots@, memberships@, layout));
                    lemma_planted_with(*module, config.seed, limits, d.relations@, -1, accesses@, slots@, memberships@, layout, planted_active, goal);
                    if existentials@.len() > 0 {
                        let ex = names_view(existentials@);
                        let (first, second) = choose|first: Seq<i32>, second: Seq<i32>|
                            #[trigger] shared_head_pair(planted, positions@, slots@, names, ex, first, second);
                        lemma_witnessed_answer(*module, d.relations@, planted, positions@, slots@, names, first);
                        lemma_witnessed_answer(*module, d.relations@, planted, positions@, slots@, names, second);
                        let a1 = assignment_of(names, first);
                        let a2 = assignment_of(names, second);
                        let head = module.head.vars();
                        assert forall|c: int| 0 <= c < head.len() implies #[trigger] atom_row(module.head, a1)[c] == atom_row(module.head, a2)[c] by {
                            let h = head[c];
                            assert(head.contains(h));
                            if names.contains(h) {
                                let i = choose|i: int| 0 <= i < names.len() && names[i] == h;
                                lemma_without_contains(names, head, h);
                                assert(!ex.contains(names[i]));
                            }
                        }
                        assert(atom_row(module.head, a1) =~= atom_row(module.head, a2));
                        let i0 = choose|i: int| 0 <= i < names.len() && ex.contains(#[trigger] names[i]) && first[i] != second[i];
                        let v = names[i0];
                        assert(names.contains(v));
                        assert(crate::analysis::flat_vars(atoms@).contains(v));
                        let j1 = choose|i: int| 0 <= i < names.len() && names[i] == v;
                        assert(j1 == i0);
                        assert(a1[v] != a2[v]);
                        assert(shared_head_observable(*module, d.relations@));
                    }
                    assert forall|m: int| 0 <= m < atoms@.len() && #[trigger] crate::analysis::is_membership(atoms@, m)
                        implies membership_observable(*module, d.relations@, m) by {
                        assert(memberships@.contains(m as usize));
                        let j = choose|j: int| 0 <= j < memberships@.len() && memberships@[j] == m as usize;
                        assert(anti_witnessed(planted, positions@, slots@, memberships@, layout, variables@.len() as int, j));
                        let anti = choose|v: Seq<i32>| anti_assignment(v, layout, variables@.len() as int, j)
                            && #[trigger] left_out(planted, positions@, slots@, memberships@[j] as int, v);
                        let b = assignment_of(names, anti);
                        assert forall|k: int| 0 <= k < atoms@.len() && k != m implies d.relations@[crate::analysis::position_of(inputs@, atoms@[k])].rows_spec().contains(
                            #[trigger] atom_row(atoms@[k], b),
                        ) by {
                            let p = positions@[k] as int;
                            assert(p == crate::analysis::position_of(inputs@, atoms@[k]));
                            let row = project_spec(slots@[k]@, anti);
                            assert(planted[p]@.to_set().contains(row));
                            assert(filled[p]@.to_set().contains(row));
                            assert(sets[p] == filled[p]);
                            assert(rels[p].rows_spec().to_set().contains(row));
                            lemma_assignment_rows(atoms@, names, slots@, anti, k);
                            assert(d.relations@[p] == rels[p]);
                        }
                        let pm = positions@[m] as int;
                        assert(pm == crate::analysis::position_of(inputs@, atoms@[m]));
                        lemma_assignment_rows(atoms@, names, slots@, anti, m);
                        let row = project_spec(slots@[m]@, anti);
                        assert(d.relations@[pm] == rels[pm]);
                        if rels[pm].rows_spec().contains(row) {
                            assert(rels[pm].rows_spec().to_set().contains(row));
                            assert(sets[pm] == filled[pm]);
                            assert(filled[pm]@.to_set().contains(row));
                            if slots@[m]@.len() > 0 {
                                assert(!planted[pm]@.to_set().contains(row));
                                assert(negative_row(row));
                                let s0 = slots@[m]@[0] as int;
                                assert(row[0] == anti[s0]);
                                lemma_planted_value_grows(layout.anti_base as int, layout.anti_stride as int, 0, s0, j);
                                assert(row[0] >= 1);
                            } else {
                                assert(rels[pm].well_formed());
                                let i = choose|i: int| 0 <= i < rels[pm].rows_spec().len() && rels[pm].rows_spec()[i] == row;
                                assert(rels[pm].rows_spec()[i].len() == rels[pm].arity);
                            }
                        }
                        assert(satisfies_except(*module, d.relations@, b, m));
                        assert(!d.relations@[crate::analysis::position_of(module.inputs@, module.body@[m])].rows_spec().contains(atom_row(module.body@[m], b)));
                        if head_keeps_body(*module) {
                            left_out_answer_is_missing(*module, d.relations@, m, b);
                        }
                    }
                    assert forall|k: int| 0 <= k < atoms@.len() && #[trigger] partial_access(atoms@, k)
                        implies complements_observable(*module, d.relations@, k) && multi_candidate_bucket(*module, d.relations@, k) by {
                        let atom = atoms@[k];
                        let vars = atom.vars();
                        let bound = crate::analysis::first_occurrences(crate::analysis::flat_vars(atoms@.take(k)));
                        assert(crate::analysis::access_spec(atoms@, k, accesses@[k]));
                        assert(accesses@[k].partial_spec(atoms@));
                        let (f, g) = choose|f: Seq<i32>, g: Seq<i32>|
                            #[trigger] complement_pair(planted, positions@, slots@, names, names_view(accesses@[k].bound_variables@), f, g);
                        lemma_witnessed_answer(*module, d.relations@, planted, positions@, slots@, names, f);
                        lemma_witnessed_answer(*module, d.relations@, planted, positions@, slots@, names, g);
                        lemma_assignment_rows(atoms@, names, slots@, f, k);
                        lemma_assignment_rows(atoms@, names, slots@, g, k);
                        let a1 = assignment_of(names, f);
                        let a2 = assignment_of(names, g);
                        assert forall|c: int| 0 <= c < vars.len() && bound.contains(#[trigger] vars[c]) implies atom_row(atom, a1)[c] == atom_row(atom, a2)[c] by {
                            let i = slots@[k]@[c] as int;
                            assert(names[i] == vars[c]);
                        }
                        crate::analysis::lemma_bound_columns_all(vars, bound, vars.len());
                        let c0 = choose|c: int| 0 <= c < vars.len() && !bound.contains(#[trigger] vars[c]);
                        let i0 = slots@[k]@[c0] as int;
                        assert(names[i0] == vars[c0]);
                        assert(atom_row(atom, a1)[c0] != atom_row(atom, a2)[c0]);
                        assert(complements_observable(*module, d.relations@, k));
                        let cols = key_columns_at(atoms@, k);
                        assert forall|c: int| 0 <= c < cols.len() implies #[trigger] cols[c] < vars.len() by {}
                        assert forall|c: int| 0 <= c < cols.len() implies bound.contains(#[trigger] vars[cols[c] as int]) by {}
                        lemma_complements_fill_bucket(*module, d.relations@, k);
                    }
                    assert forall|k: int| 0 <= k < atoms@.len() && #[trigger] partial_access(atoms@, k) && !prefix_supplies_key(*module, k)
                        implies missing_key_reachable(*module, d.relations@, k) by {
                        let cols = accesses@[k].key_columns@;
                        assert(crate::analysis::access_spec(atoms@, k, accesses@[k]));
                        assert(cols == key_columns_at(atoms@, k));
                        assert(accesses@[k].partial_spec(atoms@));
                        if slots_supply_key(positions@, slots@, k, cols) {
                            let j = choose|j: int| #[trigger] supplies_key_at(positions@, slots@, k, cols, j);
                            lemma_supplied_variables(*module, positions@, slots@, names, k, j);
                        }
                        let v = choose|v: Seq<i32>| #[trigger] missing_key(planted, positions@, slots@, k, cols, v) && edge_keyed(v, slots@, k, cols, layout);
                        let m = edge_marker_of(v[slots@[k]@[cols[0] as int] as int] as int, layout) + 1;
                        lemma_clear_from(planted, filled, layout, m);
                        lemma_missing_key_survives(planted, filled, positions@, slots@, k, cols, v, layout, m);
                        let a = assignment_of(names, v);
                        let pk = positions@[k] as int;
                        assert(pk == crate::analysis::position_of(inputs@, atoms@[k]));
                        assert forall|j: int| 0 <= j < k implies d.relations@[crate::analysis::position_of(inputs@, atoms@[j])].rows_spec().contains(
                            #[trigger] atom_row(atoms@[j], a)) by {
                            let pj = positions@[j] as int;
                            assert(pj == crate::analysis::position_of(inputs@, atoms@[j]));
                            lemma_assignment_rows(atoms@, names, slots@, v, j);
                            assert(filled[pj]@.to_set().contains(project_spec(slots@[j]@, v)));
                            assert(sets[pj] == filled[pj]);
                            assert(rels[pj].rows_spec().to_set().contains(project_spec(slots@[j]@, v)));
                            assert(d.relations@[pj] == rels[pj]);
                        }
                        assert(prefix_satisfied(*module, d.relations@, a, k));
                        lemma_assignment_rows(atoms@, names, slots@, v, k);
                        let row = atom_row(atoms@[k], a);
                        let key = key_of(slots@, v, k, cols);
                        assert forall|x: Seq<i32>| #[trigger] d.relations@[pk].rows_spec().contains(x) implies !agrees_on(x, row, cols) by {
                            assert(d.relations@[pk] == rels[pk]);
                            assert(rels[pk].rows_spec().to_set().contains(x));
                            assert(sets[pk] == filled[pk]);
                            assert(filled[pk]@.to_set().contains(x));
                            assert(!has_key(x, cols, key));
                            if agrees_on(x, row, cols) {
                                crate::analysis::lemma_bound_columns_all(atoms@[k].vars(), crate::analysis::first_occurrences(crate::analysis::flat_vars(atoms@.take(k))), atoms@[k].vars().len());
                                let mapped = cols.map_values(|c: usize| x[c as int]);
                                assert forall|i: int| 0 <= i < cols.len() implies #[trigger] mapped[i] == key[i] by {
                                    assert(cols[i] < atoms@[k].vars().len());
                                    assert(x[cols[i] as int] == row[cols[i] as int]);
                                }
                                assert(mapped =~= key);
                                assert(has_key(x, cols, key));
                            }
                        }
                    }
                    assert forall|k: int, i: int| 0 <= k < atoms@.len() && 0 <= i < key_columns_at(atoms@, k).len() && key_columns_at(atoms@, k).len() >= 2
                        implies decoy_observable(*module, d.relations@, k, #[trigger] key_columns_at(atoms@, k)[i] as int) by {
                        let cols = accesses@[k].key_columns@;
                        assert(crate::analysis::access_spec(atoms@, k, accesses@[k]));
                        assert(cols == key_columns_at(atoms@, k));
                        let c = cols[i] as int;
                        assert(accesses@[k].key_columns@[i] == cols[i]);
                        assert(decoy_survived(planted, positions@, slots@, accesses@, layout, k, i));
                        let v = choose|v: Seq<i32>| #[trigger] near_miss(planted, positions@, slots@, k, accesses@[k].key_columns@[i] as int, v) && edge_row(v, slots@, k, layout);
                        let m = edge_marker_of(v[slots@[k]@[0] as int] as int, layout) + 1;
                        lemma_clear_from(planted, filled, layout, m);
                        lemma_near_miss_survives(planted, filled, positions@, slots@, k, c, v, layout, m);
                        let a = assignment_of(names, v);
                        let pk = positions@[k] as int;
                        assert(pk == crate::analysis::position_of(inputs@, atoms@[k]));
                        assert forall|j: int| 0 <= j < atoms@.len() && j != k implies d.relations@[crate::analysis::position_of(inputs@, atoms@[j])].rows_spec().contains(
                            #[trigger] atom_row(atoms@[j], a)) by {
                            let pj = positions@[j] as int;
                            assert(pj == crate::analysis::position_of(inputs@, atoms@[j]));
                            lemma_assignment_rows(atoms@, names, slots@, v, j);
                            assert(filled[pj]@.to_set().contains(project_spec(slots@[j]@, v)));
                            assert(sets[pj] == filled[pj]);
                            assert(rels[pj].rows_spec().to_set().contains(project_spec(slots@[j]@, v)));
                            assert(d.relations@[pj] == rels[pj]);
                        }
                        assert(satisfies_except(*module, d.relations@, a, k));
                        lemma_assignment_rows(atoms@, names, slots@, v, k);
                        let row = atom_row(atoms@[k], a);
                        assert(d.relations@[pk] == rels[pk]);
                        assert(sets[pk] == filled[pk]);
                        if d.relations@[pk].rows_spec().contains(row) {
                            assert(rels[pk].rows_spec().to_set().contains(row));
                            assert(filled[pk]@.to_set().contains(row));
                        }
                        let w = choose|w: i32| filled[pk]@.to_set().contains(#[trigger] project_spec(slots@[k]@, v).update(c, w));
                        assert(rels[pk].rows_spec().to_set().contains(row.update(c, w)));
                        assert(d.relations@[pk].rows_spec().contains(row.update(c, w)));
                    }
                    assert(final_active == planted_active);
                    assert forall|k: int| 0 <= k < atoms@.len() implies
                        (#[trigger] d.manifest.relations@[crate::analysis::position_of(inputs@, atoms@[k])]).raw_rows
                            > d.manifest.relations@[crate::analysis::position_of(inputs@, atoms@[k])].distinct_rows by {
                        let p = positions@[k] as int;
                        assert(p == crate::analysis::position_of(inputs@, atoms@[k]));
                        assert(final_active[p] is Some);
                        assert(crate::dataset::records(d.manifest.relations@[p], d.relations@[p]));
                        assert(d.relations@[p] == rels[p]);
                        assert(sets[p].wf());
                        sets[p].lemma_distinct();
                        assert(rels[p].rows_spec().to_set() == sets[p]@.to_set());
                    }
                }
                if config.scenario == Scenario::NoMatch {
                    assert(planted == initial);
                    assert(row_sets(planted) =~= no_rows(d.relations@.len())) by {
                        assert forall|q: int| 0 <= q < d.relations@.len() implies #[trigger] row_sets(planted)[q] == no_rows(d.relations@.len())[q] by {
                            assert(initial[q]@.len() == 0);
                            assert(initial[q]@.to_set() =~= Set::<Seq<i32>>::empty());
                        }
                    }
                    assert(planted_active =~= no_markers(d.relations@.len()));
                    assert(d.relations@ == rels);
                    assert forall|p: int, x: Seq<i32>| 0 <= p < d.relations@.len() && #[trigger] d.relations@[p].rows_spec().contains(x)
                        implies in_noise_domain(x, total_columns(inputs@, p as nat) as int) by {
                        assert(d.relations@[p] == rels[p]);
                        assert(rels[p].rows_spec().to_set().contains(x));
                        assert(sets[p]@.to_set().contains(x));
                        assert(initial[p]@.len() == 0);
                        assert(!planted[p]@.to_set().contains(x));
                    }
                    assert(total_columns(inputs@, inputs@.len()) < 2048);
                    assert forall|k: int| 0 <= k < atoms@.len() implies 0 <= #[trigger] crate::analysis::position_of(inputs@, atoms@[k]) < inputs@.len() by {
                        assert(positions@[k] == crate::analysis::position_of(inputs@, atoms@[k]));
                    }
                    lemma_conflict_has_no_answer(*module, d.relations@);
                }
                if config.scenario == Scenario::EmptyInput {
                    let k = atoms@.len() - 1;
                    assert(emptied == crate::analysis::position_of(inputs@, atoms@[k]));
                    assert(sets[emptied]@.len() == 0);
                    let v = rels[emptied].rows_spec();
                    assert(v.to_set() == sets[emptied]@.to_set());
                    assert(sets[emptied]@.to_set() =~= Set::<Seq<i32>>::empty());
                    if v.len() > 0 {
                        assert(v.to_set().contains(v[0]));
                    }
                    assert forall|a: Map<Seq<char>, i32>| !satisfies(*module, d.relations@, a) by {
                        if satisfies(*module, d.relations@, a) {
                            assert(d.relations@[emptied].rows_spec().contains(atom_row(atoms@[k], a)));
                        }
                    }
                    let names = names_view(variables@);
                    crate::analysis::lemma_first_occurrences(crate::analysis::flat_vars(atoms@));
                    assert(crate::analysis::slots_spec(atoms@, names, slots@));
                    assert(witnessed(planted, positions@, slots@, cover_values));
                    let seeded = assignment_of(names, cover_values);
                    assert forall|j: int| 0 <= j < atoms@.len() && crate::analysis::position_of(inputs@, atoms@[j]) != emptied
                        implies d.relations@[crate::analysis::position_of(inputs@, atoms@[j])].rows_spec().contains(#[trigger] atom_row(atoms@[j], seeded)) by {
                        let pj = positions@[j] as int;
                        assert(pj == crate::analysis::position_of(inputs@, atoms@[j]));
                        lemma_assignment_rows(atoms@, names, slots@, cover_values, j);
                        assert(planted[pj]@.to_set().contains(project_spec(slots@[j]@, cover_values)));
                        assert(filled[pj]@.to_set().contains(project_spec(slots@[j]@, cover_values)));
                        assert(sets[pj] == filled[pj]);
                        assert(rels[pj].rows_spec().to_set().contains(project_spec(slots@[j]@, cover_values)));
                        assert(d.relations@[pj] == rels[pj]);
                    }
                    assert(cover_values =~= seeded_witness(config.seed, limits, names.len()));
                    assert(names == body_variables(*module));
                    assert(names_view(existentials@) == crate::analysis::without(names, module.head.vars()));
                    assert(names_view(existentials@).len() == existentials@.len());
                    assert(coverage_plan(*module, config.seed, limits, accesses@, slots@, memberships@, layout));
                    let empty = Seq::new(d.relations@.len(), |q: int| Set::<Seq<i32>>::empty());
                    assert(row_sets(initial) =~= empty) by {
                        assert forall|q: int| 0 <= q < empty.len() implies #[trigger] row_sets(initial)[q] == empty[q] by {
                            assert(initial[q]@.len() == 0);
                            assert(initial[q]@.to_set() =~= Set::<Seq<i32>>::empty());
                        }
                    }
                    let goal = coverage_sets(empty, atoms@, accesses@, positions@, slots@, memberships@, names, names_view(existentials@), layout,
                        limits.distinct_rows as nat, limits.planted_witnesses as int);
                    assert(row_sets(planted) == goal);
                    assert forall|q: int| 0 <= q < d.relations@.len() && q != emptied implies #[trigger] planted_part(d.relations@[q].rows_spec().to_set())
                        == planted_part(goal[q]) by {
                        assert(d.relations@[q] == rels[q]);
                        assert(sets[q] == filled[q]);
                        assert(row_sets(planted)[q] == planted[q]@.to_set());
                        assert(planted_part(rels[q].rows_spec().to_set()) =~= planted_part(goal[q])) by {
                            assert forall|x: Seq<i32>| planted_part(rels[q].rows_spec().to_set()).contains(x) implies planted_part(goal[q]).contains(x) by {
                                assert(filled[q]@.to_set().contains(x));
                            }
                            assert forall|x: Seq<i32>| planted_part(goal[q]).contains(x) implies planted_part(rels[q].rows_spec().to_set()).contains(x) by {
                                assert(planted[q]@.to_set().subset_of(filled[q]@.to_set()));
                            }
                        }
                    }
                    assert(body_positions(*module) =~= positions@);
                    assert(primary_markers(planted_active, positions@, slots@, layout, names.len(), d.relations@.len()));
                    assert(d.relations@ == rels);
                    assert(relations_generated(inputs@, d.relations@, goal, planted_active, config.seed.wrapping_add(splitmix_gamma()),
                        limits.distinct_rows as nat, emptied));
                    assert(goal == planned_sets(*module, limits, d.relations@.len(), accesses@, slots@, memberships@, layout));
                    lemma_planted_with(*module, config.seed, limits, d.relations@, emptied, accesses@, slots@, memberships@, layout, planted_active, goal);
                    assert(satisfies_outside(*module, d.relations@, seeded, emptied));
                }
                assert(shape_limits(config.scale, crate::analysis::component_count(module.body@, module.body@.len()), limits));
            }
            Ok(d)
        },
        Err(e) => Err(GenerateError::Dataset(e)),
    }
}

/// Generate one catalog case from its query program.
pub fn generate(case: &crate::QueryCase, config: crate::GenerationConfig) -> (r: Result<crate::dataset::Dataset, GenerateError>)
    ensures
        exists|m: crate::model::CqModule|
            crate::catalog::module_view(m) == case.program.module_spec()
            && #[trigger] generation_outcome(m, case.suite, case.name@, config, r),
        r matches Ok(d) ==> d.relations@.len() == case.program.module_spec().inputs.len(),
{
    let module = case.module();
    let name = String::from_str(case.name);
    let r = generate_module(&module, case.suite, name, config);
    proof {
        if r is Ok {
            let d = r->Ok_0;
            assert(d.valid_for(&module));
            assert(crate::catalog::module_view(module).inputs.len() == module.inputs@.len());
        }
        assert(generation_outcome(module, case.suite, case.name@, config, r));
    }
    r
}

/// Check whether a catalog case admits a scenario without materializing rows.
pub fn check_scenario(case: &crate::QueryCase, scenario: Scenario) -> (r: Result<(), GenerateError>)
    ensures
        exists|m: crate::model::CqModule|
            crate::catalog::module_view(m) == case.program.module_spec() && #[trigger] check_outcome(m, scenario, r),
{
    let module = case.module();
    let r = check_module_scenario(&module, scenario);
    assert(crate::catalog::module_view(module) == case.program.module_spec());
    assert(check_outcome(module, scenario, r));
    r
}

} // verus!
