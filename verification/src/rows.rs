//! Integer rows, their lexicographic order, and sorted sets of rows.
//!
//! Rows compare as `Vec<i32>` does: element by element, and a proper prefix
//! sorts first. A `RowSet` keeps its rows strictly increasing in that order,
//! so walking it yields the same sequence as walking an ordered set.

use vstd::prelude::*;

verus! {

/// Strict lexicographic order on rows.
pub open spec fn lex_lt(a: Seq<i32>, b: Seq<i32>) -> bool
    decreases a.len(),
{
    if b.len() == 0 {
        false
    } else if a.len() == 0 {
        true
    } else if a[0] < b[0] {
        true
    } else if a[0] > b[0] {
        false
    } else {
        lex_lt(a.drop_first(), b.drop_first())
    }
}

/// Strictly increasing sequence of rows (hence free of duplicates).
pub open spec fn strictly_sorted(s: Seq<Seq<i32>>) -> bool {
    forall|i: int, j: int| 0 <= i < j < s.len() ==> lex_lt(#[trigger] s[i], #[trigger] s[j])
}

/// No row precedes itself.
pub proof fn lemma_lex_irreflexive(a: Seq<i32>)
    ensures
        !lex_lt(a, a),
    decreases a.len(),
{
    if a.len() > 0 {
        lemma_lex_irreflexive(a.drop_first());
    }
}

/// Row order is transitive.
pub proof fn lemma_lex_transitive(a: Seq<i32>, b: Seq<i32>, c: Seq<i32>)
    requires
        lex_lt(a, b),
        lex_lt(b, c),
    ensures
        lex_lt(a, c),
    decreases a.len(),
{
    if a.len() > 0 && b.len() > 0 && c.len() > 0 && a[0] == b[0] && b[0] == c[0] {
        lemma_lex_transitive(a.drop_first(), b.drop_first(), c.drop_first());
    }
}

/// Two distinct rows are ordered one way or the other.
pub proof fn lemma_lex_total(a: Seq<i32>, b: Seq<i32>)
    ensures
        a == b || lex_lt(a, b) || lex_lt(b, a),
    decreases a.len(),
{
    if a.len() > 0 && b.len() > 0 && a[0] == b[0] {
        lemma_lex_total(a.drop_first(), b.drop_first());
        if a.drop_first() == b.drop_first() {
            assert(a =~= seq![a[0]] + a.drop_first());
            assert(b =~= seq![b[0]] + b.drop_first());
        }
    } else if a.len() == 0 && b.len() == 0 {
        assert(a =~= b);
    }
}

/// No two rows precede each other.
pub proof fn lemma_lex_asymmetric(a: Seq<i32>, b: Seq<i32>)
    requires
        lex_lt(a, b),
    ensures
        !lex_lt(b, a),
        a != b,
{
    lemma_lex_irreflexive(a);
    if lex_lt(b, a) {
        lemma_lex_transitive(a, b, a);
    }
}

/// The three outcomes of comparing two rows.
#[derive(Clone, Copy, Debug, PartialEq, Eq, Structural)]
pub enum RowOrder {
    Less,
    Equal,
    Greater,
}

/// Compares two rows lexicographically.
pub fn compare_rows(a: &Vec<i32>, b: &Vec<i32>) -> (r: RowOrder)
    ensures
        r == RowOrder::Less <==> lex_lt(a@, b@),
        r == RowOrder::Equal <==> a@ == b@,
        r == RowOrder::Greater <==> lex_lt(b@, a@),
{
    let mut i: usize = 0;
    assert(a@.skip(0) == a@);
    assert(b@.skip(0) == b@);
    while i < a.len() && i < b.len()
        invariant
            i <= a.len(),
            i <= b.len(),
            a@.take(i as int) == b@.take(i as int),
            lex_lt(a@, b@) == lex_lt(a@.skip(i as int), b@.skip(i as int)),
            lex_lt(b@, a@) == lex_lt(b@.skip(i as int), a@.skip(i as int)),
        decreases a.len() - i,
    {
        if a[i] < b[i] {
            proof { lemma_lex_asymmetric(a@, b@); }
            return RowOrder::Less;
        }
        if a[i] > b[i] {
            proof { lemma_lex_asymmetric(b@, a@); }
            return RowOrder::Greater;
        }
        assert(a@.skip(i as int).drop_first() == a@.skip(i + 1));
        assert(b@.skip(i as int).drop_first() == b@.skip(i + 1));
        assert(a@.take(i + 1) == a@.take(i as int).push(a[i as int]));
        assert(b@.take(i + 1) == b@.take(i as int).push(b[i as int]));
        i += 1;
    }
    proof {
        lemma_lex_irreflexive(a@);
        lemma_lex_irreflexive(b@);
    }
    if a.len() < b.len() {
        assert(a@ != b@);
        proof { lemma_lex_asymmetric(a@, b@); }
        RowOrder::Less
    } else if a.len() > b.len() {
        assert(a@ != b@);
        proof { lemma_lex_asymmetric(b@, a@); }
        RowOrder::Greater
    } else {
        assert(a@ == a@.take(i as int));
        assert(b@ == b@.take(i as int));
        RowOrder::Equal
    }
}

/// The rows held by a vector of vectors.
pub open spec fn rows_view(v: Seq<Vec<i32>>) -> Seq<Seq<i32>> {
    v.map_values(|r: Vec<i32>| r@)
}

/// A set of rows kept strictly increasing.
pub struct RowSet {
    rows: Vec<Vec<i32>>,
}

impl View for RowSet {
    type V = Seq<Seq<i32>>;

    closed spec fn view(&self) -> Seq<Seq<i32>> {
        rows_view(self.rows@)
    }
}

impl RowSet {
    /// The rows are strictly increasing.
    pub closed spec fn wf(&self) -> bool {
        strictly_sorted(rows_view(self.rows@))
    }

    /// The empty set.
    pub fn new() -> (r: RowSet)
        ensures
            r.wf(),
            r@ == Seq::<Seq<i32>>::empty(),
    {
        let r = RowSet { rows: Vec::new() };
        assert(r@ =~= Seq::<Seq<i32>>::empty());
        r
    }

    /// The number of rows.
    pub fn len(&self) -> (n: usize)
        ensures
            n == self@.len(),
    {
        self.rows.len()
    }

    /// The row at position `i` in increasing order.
    pub fn get(&self, i: usize) -> (r: &Vec<i32>)
        requires
            i < self@.len(),
        ensures
            r@ == self@[i as int],
    {
        &self.rows[i]
    }

    /// First position whose row is not below `row`.
    fn lower_bound(&self, row: &Vec<i32>) -> (k: usize)
        requires
            self.wf(),
        ensures
            k <= self@.len(),
            forall|i: int| 0 <= i < k ==> lex_lt(#[trigger] self@[i], row@),
            forall|i: int| k <= i < self@.len() ==> !lex_lt(#[trigger] self@[i], row@),
    {
        let mut low: usize = 0;
        let mut high: usize = self.rows.len();
        while low < high
            invariant
                self.wf(),
                low <= high <= self@.len(),
                forall|i: int| 0 <= i < low ==> lex_lt(#[trigger] self@[i], row@),
                forall|i: int| high <= i < self@.len() ==> !lex_lt(#[trigger] self@[i], row@),
            decreases high - low,
        {
            let middle = low + (high - low) / 2;
            assert(self.rows[middle as int]@ == self@[middle as int]);
            if compare_rows(&self.rows[middle], row) == RowOrder::Less {
                assert forall|i: int| 0 <= i < middle + 1 implies lex_lt(#[trigger] self@[i], row@) by {
                    if i < middle {
                        lemma_lex_transitive(self@[i], self@[middle as int], row@);
                    }
                }
                low = middle + 1;
            } else {
                assert forall|i: int| middle <= i < self@.len() implies !lex_lt(#[trigger] self@[i], row@) by {
                    if i > middle && lex_lt(self@[i], row@) {
                        lemma_lex_transitive(self@[middle as int], self@[i], row@);
                    }
                }
                high = middle;
            }
        }
        low
    }

    /// Whether `row` is in the set.
    pub fn contains(&self, row: &Vec<i32>) -> (b: bool)
        requires
            self.wf(),
        ensures
            b == self@.contains(row@),
    {
        let k = self.lower_bound(row);
        if k < self.rows.len() {
            assert(self.rows[k as int]@ == self@[k as int]);
            if compare_rows(&self.rows[k], row) == RowOrder::Equal {
                assert(self@[k as int] == row@);
                return true;
            }
            proof {
                lemma_lex_total(self@[k as int], row@);
                assert forall|i: int| 0 <= i < self@.len() implies self@[i] != row@ by {
                    if i < k {
                        lemma_lex_irreflexive(row@);
                    } else if i > k {
                        lemma_lex_transitive(row@, self@[k as int], self@[i]);
                        lemma_lex_irreflexive(row@);
                    }
                }
            }
            false
        } else {
            proof {
                assert forall|i: int| 0 <= i < self@.len() implies self@[i] != row@ by {
                    lemma_lex_irreflexive(row@);
                }
            }
            false
        }
    }

    /// Adds `row`; returns whether it was new.
    pub fn insert(&mut self, row: Vec<i32>) -> (added: bool)
        requires
            old(self).wf(),
        ensures
            final(self).wf(),
            added == !old(self)@.contains(row@),
            final(self)@.to_set() == old(self)@.to_set().insert(row@),
            final(self)@.len() == old(self)@.len() + if added { 1int } else { 0int },
    {
        let ghost before = self@;
        let k = self.lower_bound(&row);
        if k < self.rows.len() {
            assert(self.rows[k as int]@ == self@[k as int]);
            if compare_rows(&self.rows[k], &row) == RowOrder::Equal {
                assert(before.contains(row@));
                assert(before.to_set().insert(row@) =~= before.to_set());
                return false;
            }
            proof { lemma_lex_total(self@[k as int], row@); }
        }
        proof {
            assert forall|i: int| 0 <= i < before.len() implies before[i] != row@ by {
                if i < k {
                    lemma_lex_irreflexive(row@);
                } else {
                    lemma_lex_irreflexive(row@);
                    if i > k {
                        lemma_lex_transitive(row@, before[k as int], before[i]);
                    }
                }
            }
        }
        let ghost row_view = row@;
        self.rows.insert(k, row);
        proof {
            assert(self@ =~= before.insert(k as int, row_view)) by {
                assert(self.rows@ == old(self).rows@.insert(k as int, row));
            }
            assert forall|i: int, j: int| 0 <= i < j < self@.len() implies lex_lt(#[trigger] self@[i], #[trigger] self@[j]) by {
                if i < k && j == k {
                } else if i == k && j > k {
                    if j - 1 > k {
                        lemma_lex_total(before[k as int], row_view);
                    }
                    lemma_lex_total(before[j - 1], row_view);
                    if before[j - 1] == row_view {
                    } else if lex_lt(before[j - 1], row_view) {
                    }
                } else if i < k && j > k {
                    if j - 1 > k {
                        lemma_lex_transitive(before[i], before[k as int], before[j - 1]);
                    }
                } else if i > k {
                    assert(self@[i] == before[i - 1]);
                    assert(self@[j] == before[j - 1]);
                }
            }
            assert(self@.to_set() =~= before.to_set().insert(row_view)) by {
                assert forall|x: Seq<i32>| self@.to_set().contains(x) <==> before.to_set().insert(row_view).contains(x) by {
                    if self@.contains(x) {
                        let i = choose|i: int| 0 <= i < self@.len() && self@[i] == x;
                        if i < k {
                            assert(before[i] == x);
                        } else if i > k {
                            assert(before[i - 1] == x);
                        }
                    }
                    if before.contains(x) {
                        let i = choose|i: int| 0 <= i < before.len() && before[i] == x;
                        if i < k {
                            assert(self@[i] == x);
                        } else {
                            assert(self@[i + 1] == x);
                        }
                    }
                    if x == row_view {
                        assert(self@[k as int] == x);
                    }
                }
            }
        }
        true
    }

    /// A copy of the set.
    pub fn copy(&self) -> (r: RowSet)
        requires
            self.wf(),
        ensures
            r.wf(),
            r@ == self@,
    {
        let mut rows: Vec<Vec<i32>> = Vec::new();
        for i in 0..self.rows.len()
            invariant
                rows_view(rows@) == rows_view(self.rows@).take(i as int),
        {
            let row = crate::dataset::clone_row(&self.rows[i]);
            let ghost before = rows@;
            rows.push(row);
            assert(rows_view(rows@) =~= rows_view(before).push(self.rows@[i as int]@));
            assert(rows_view(self.rows@).take(i + 1) =~= rows_view(self.rows@).take(i as int).push(self.rows@[i as int]@));
        }
        assert(rows_view(self.rows@).take(self.rows@.len() as int) == rows_view(self.rows@));
        RowSet { rows }
    }

    /// A well-formed set holds no row twice.
    pub proof fn lemma_distinct(&self)
        requires
            self.wf(),
        ensures
            self@.to_set().len() == self@.len(),
            strictly_sorted(self@),
    {
        lemma_sorted_set_len(self@);
    }

    /// The rows in increasing order.
    pub fn into_vec(self) -> (v: Vec<Vec<i32>>)
        ensures
            rows_view(v@) == self@,
    {
        self.rows
    }
}

/// A strictly sorted sequence has as many members as elements.
pub proof fn lemma_sorted_set_len(s: Seq<Seq<i32>>)
    requires
        strictly_sorted(s),
    ensures
        s.to_set().len() == s.len(),
{
    assert(s.no_duplicates()) by {
        assert forall|i: int, j: int| 0 <= i < s.len() && 0 <= j < s.len() && i != j implies s[i] != s[j] by {
            if i < j {
                lemma_lex_asymmetric(s[i], s[j]);
            } else {
                lemma_lex_asymmetric(s[j], s[i]);
            }
        }
    }
    s.unique_seq_to_set();
}

/// The rows of a set in increasing order: the one strictly sorted sequence
/// that holds exactly them.
pub open spec fn sorted_rows(set: Set<Seq<i32>>) -> Seq<Seq<i32>> {
    choose|s: Seq<Seq<i32>>| strictly_sorted(s) && s.to_set() == set
}

/// Two strictly sorted sequences of the same rows are equal, so a set of
/// rows has one increasing order.
pub proof fn lemma_sorted_unique(a: Seq<Seq<i32>>, b: Seq<Seq<i32>>)
    requires
        strictly_sorted(a),
        strictly_sorted(b),
        a.to_set() == b.to_set(),
    ensures
        a == b,
    decreases a.len(),
{
    if a.len() == 0 {
        if b.len() > 0 {
            assert(b.to_set().contains(b[0]));
        }
        assert(a =~= b);
    } else if b.len() == 0 {
        assert(a.to_set().contains(a[0]));
    } else {
        assert(b.to_set().contains(a[0]));
        assert(a.to_set().contains(b[0]));
        let i = choose|i: int| 0 <= i < b.len() && b[i] == a[0];
        let j = choose|j: int| 0 <= j < a.len() && a[j] == b[0];
        if i > 0 {
            assert(lex_lt(b[0], b[i]));
            if j > 0 {
                assert(lex_lt(a[0], a[j]));
                lemma_lex_asymmetric(a[0], b[0]);
            }
        }
        assert(a[0] == b[0]) by {
            if a[0] != b[0] {
                assert(i > 0 && j > 0);
            }
        }
        let ra = a.drop_first();
        let rb = b.drop_first();
        assert(strictly_sorted(ra));
        assert(strictly_sorted(rb));
        assert(ra.to_set() =~= rb.to_set()) by {
            assert forall|x: Seq<i32>| ra.to_set().contains(x) implies rb.to_set().contains(x) by {
                let k = choose|k: int| 0 <= k < ra.len() && ra[k] == x;
                assert(lex_lt(a[0], a[k + 1]));
                lemma_lex_asymmetric(a[0], x);
                assert(b.to_set().contains(x));
                let m = choose|m: int| 0 <= m < b.len() && b[m] == x;
                assert(m != 0);
                assert(rb[m - 1] == x);
            }
            assert forall|x: Seq<i32>| rb.to_set().contains(x) implies ra.to_set().contains(x) by {
                let k = choose|k: int| 0 <= k < rb.len() && rb[k] == x;
                assert(lex_lt(b[0], b[k + 1]));
                lemma_lex_asymmetric(b[0], x);
                assert(a.to_set().contains(x));
                let m = choose|m: int| 0 <= m < a.len() && a[m] == x;
                assert(m != 0);
                assert(ra[m - 1] == x);
            }
        }
        lemma_sorted_unique(ra, rb);
        assert(a =~= seq![a[0]] + ra);
        assert(b =~= seq![b[0]] + rb);
    }
}

/// A well-formed set's rows are `sorted_rows` of its members.
pub proof fn lemma_sorted_rows(s: Seq<Seq<i32>>)
    requires
        strictly_sorted(s),
    ensures
        sorted_rows(s.to_set()) == s,
{
    let t = sorted_rows(s.to_set());
    assert(strictly_sorted(s) && s.to_set() == s.to_set());
    lemma_sorted_unique(s, t);
}

} // verus!
