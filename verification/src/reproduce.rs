//! Reproducible generation: the rows that generation plants and draws
//! depend on the query's plan only through what the plan's values show, and
//! two plans of one query show the same, so one query, seed and row target
//! give one dataset.

use vstd::prelude::*;
use vstd::arithmetic::power::pow;

use crate::analysis::{
    access_spec, composite_key_total, flat_vars, is_membership, lemma_first_occurrences, partial_count, AccessPattern,
};
use crate::generate::{
    anti_sets, anti_values, body_positions, body_variables, column_decoy_sets, complement_sets, complement_values, coverage_plan,
    coverage_sets, decoy_added, decoy_sets, edge_values, fresh_drawn, least_marker_is_unique,
    missing_key_sets, planned_sets, planted_exactly, planted_with, prefix_has_key, primary_markers, project_spec, projected_sets,
    shared_head_sets, shared_values, union_sets, witness_sets, witness_values, Limits, PlantingLayout, generation_outcome, shape_limits,
    is_nth_root, generated_rows_are_reproducible as rows_follow_markers, no_rows, no_markers, relations_generated, scale_budget, splitmix_gamma,
};
use crate::model::{names_view, Atom, CqModule};

verus! {

/// Two plans show the same access patterns and the same variable slots.
pub open spec fn same_views(first: Seq<AccessPattern>, second: Seq<AccessPattern>, first_slots: Seq<Vec<usize>>, second_slots: Seq<Vec<usize>>) -> bool {
    &&& first.len() == second.len()
    &&& first_slots.len() == second_slots.len()
    &&& forall|i: int|
        0 <= i < first.len() ==> (#[trigger] first[i]).occurrence == second[i].occurrence && first[i].key_columns@ == second[i].key_columns@
            && names_view(first[i].bound_variables@) == names_view(second[i].bound_variables@)
    &&& forall|k: int| 0 <= k < first_slots.len() ==> (#[trigger] first_slots[k])@ == second_slots[k]@
}

/// Projections read the slots only through their views.
proof fn lemma_projected(
    positions: Seq<usize>,
    first: Seq<Vec<usize>>,
    second: Seq<Vec<usize>>,
    n: nat,
    values: Seq<i32>,
    omitted: Option<usize>,
    end: int,
)
    requires
        positions.len() <= first.len(),
        first.len() == second.len(),
        forall|k: int| 0 <= k < first.len() ==> (#[trigger] first[k])@ == second[k]@,
    ensures
        projected_sets(positions, first, n, values, omitted, end) == projected_sets(positions, second, n, values, omitted, end),
{
    let a = projected_sets(positions, first, n, values, omitted, end);
    let b = projected_sets(positions, second, n, values, omitted, end);
    assert forall|p: int| 0 <= p < n implies #[trigger] a[p] == b[p] by {
        assert forall|x: Seq<i32>| a[p].contains(x) <==> b[p].contains(x) by {
            if a[p].contains(x) {
                let k = choose|k: int|
                    0 <= k < positions.len() && crate::generate::included(k, omitted, end) && positions[k] == p && x == project_spec(
                        #[trigger] first[k]@,
                        values,
                    );
                assert(second[k]@ == first[k]@);
            }
            if b[p].contains(x) {
                let k = choose|k: int|
                    0 <= k < positions.len() && crate::generate::included(k, omitted, end) && positions[k] == p && x == project_spec(
                        #[trigger] second[k]@,
                        values,
                    );
                assert(second[k]@ == first[k]@);
            }
        }
        assert(a[p] =~= b[p]);
    }
    assert(a =~= b);
}

/// The counts of partial and composite-key lookups read only the views.
proof fn lemma_counts(atoms: Seq<Atom>, first: Seq<AccessPattern>, second: Seq<AccessPattern>, slots: Seq<Vec<usize>>, upto: nat)
    requires
        upto <= first.len(),
        same_views(first, second, slots, slots),
    ensures
        partial_count(first, atoms, upto) == partial_count(second, atoms, upto),
        composite_key_total(first, upto) == composite_key_total(second, upto),
    decreases upto,
{
    if upto > 0 {
        lemma_counts(atoms, first, second, slots, (upto - 1) as nat);
        assert(first[upto - 1].occurrence == second[upto - 1].occurrence);
    }
}

/// The further complete witnesses read only the slots' views.
proof fn lemma_witnesses(
    sets: Seq<Set<Seq<i32>>>,
    positions: Seq<usize>,
    first: Seq<Vec<usize>>,
    second: Seq<Vec<usize>>,
    layout: PlantingLayout,
    variable_count: nat,
    distinct_rows: nat,
    count: int,
    w: int,
)
    requires
        positions.len() <= first.len(),
        first.len() == second.len(),
        forall|k: int| 0 <= k < first.len() ==> (#[trigger] first[k])@ == second[k]@,
    ensures
        witness_sets(sets, positions, first, layout, variable_count, distinct_rows, count, w) == witness_sets(sets, positions, second, layout,
            variable_count, distinct_rows, count, w),
    decreases count - w,
{
    if w < count {
        let values = witness_values(layout, variable_count, w);
        lemma_projected(positions, first, second, sets.len(), values, None, positions.len() as int);
        let added = projected_sets(positions, first, sets.len(), values, None, positions.len() as int);
        lemma_witnesses(union_sets(sets, added), positions, first, second, layout, variable_count, distinct_rows, count, w + 1);
    }
}

/// The anti-witnesses read only the slots' views.
proof fn lemma_anti(
    sets: Seq<Set<Seq<i32>>>,
    positions: Seq<usize>,
    first: Seq<Vec<usize>>,
    second: Seq<Vec<usize>>,
    memberships: Seq<usize>,
    layout: PlantingLayout,
    variable_count: nat,
    upto: nat,
)
    requires
        positions.len() <= first.len(),
        first.len() == second.len(),
        forall|k: int| 0 <= k < first.len() ==> (#[trigger] first[k])@ == second[k]@,
    ensures
        anti_sets(sets, positions, first, memberships, layout, variable_count, upto) == anti_sets(sets, positions, second, memberships, layout,
            variable_count, upto),
    decreases upto,
{
    if upto > 0 {
        lemma_anti(sets, positions, first, second, memberships, layout, variable_count, (upto - 1) as nat);
        lemma_projected(positions, first, second, sets.len(), anti_values(layout, variable_count, upto - 1), Some(memberships[upto - 1]),
            positions.len() as int);
    }
}

/// Whether the earlier occurrences hold a key reads only the slots' views.
proof fn lemma_prefix_key(
    positions: Seq<usize>,
    first: Seq<Vec<usize>>,
    second: Seq<Vec<usize>>,
    values: Seq<i32>,
    occurrence: int,
    columns: Seq<usize>,
)
    requires
        0 <= occurrence < first.len(),
        first.len() == second.len(),
        forall|k: int| 0 <= k < first.len() ==> (#[trigger] first[k])@ == second[k]@,
    ensures
        prefix_has_key(positions, first, values, occurrence, columns) == prefix_has_key(positions, second, values, occurrence, columns),
{
    assert(first[occurrence]@ == second[occurrence]@);
    let key = columns.map_values(|c: usize| values[first[occurrence]@[c as int] as int]);
    assert(key =~= columns.map_values(|c: usize| values[second[occurrence]@[c as int] as int]));
    if prefix_has_key(positions, first, values, occurrence, columns) {
        let k = choose|k: int|
            0 <= k < occurrence && positions[k] == positions[occurrence] && crate::generate::has_key(project_spec(#[trigger] first[k]@, values), columns, key);
        assert(first[k]@ == second[k]@);
    }
    if prefix_has_key(positions, second, values, occurrence, columns) {
        let k = choose|k: int|
            0 <= k < occurrence && positions[k] == positions[occurrence] && crate::generate::has_key(project_spec(#[trigger] second[k]@, values), columns, key);
        assert(first[k]@ == second[k]@);
    }
}

/// The missing-key probes read only the plan's views.
proof fn lemma_missing(
    sets: Seq<Set<Seq<i32>>>,
    atoms: Seq<Atom>,
    first: Seq<AccessPattern>,
    second: Seq<AccessPattern>,
    positions: Seq<usize>,
    first_slots: Seq<Vec<usize>>,
    second_slots: Seq<Vec<usize>>,
    layout: PlantingLayout,
    variable_count: nat,
    start: int,
    upto: nat,
)
    requires
        upto <= first.len(),
        first.len() == first_slots.len(),
        positions.len() <= first_slots.len(),
        same_views(first, second, first_slots, second_slots),
    ensures
        missing_key_sets(sets, atoms, first, positions, first_slots, layout, variable_count, start, upto) == missing_key_sets(sets, atoms, second,
            positions, second_slots, layout, variable_count, start, upto),
    decreases upto,
{
    if upto > 0 {
        let i = upto - 1;
        lemma_missing(sets, atoms, first, second, positions, first_slots, second_slots, layout, variable_count, start, (upto - 1) as nat);
        lemma_counts(atoms, first, second, first_slots, (upto - 1) as nat);
        assert(same_views(first, second, first_slots, first_slots));
        let values = edge_values(layout, variable_count, start + partial_count(first, atoms, (upto - 1) as nat));
        assert(first[i].occurrence == second[i].occurrence);
        lemma_prefix_key(positions, first_slots, second_slots, values, i, first[i].key_columns@);
        lemma_projected(positions, first_slots, second_slots, sets.len(), values, None, i);
    }
}

/// One decoy reads only the plan's views.
proof fn lemma_decoy_added(
    len: nat,
    positions: Seq<usize>,
    first: Seq<Vec<usize>>,
    second: Seq<Vec<usize>>,
    first_accesses: Seq<AccessPattern>,
    second_accesses: Seq<AccessPattern>,
    layout: PlantingLayout,
    variable_count: nat,
    marker: int,
    fresh_value: int,
    q: int,
    j: int,
)
    requires
        0 <= q < first_accesses.len(),
        first_accesses.len() == first.len(),
        positions.len() <= first.len(),
        same_views(first_accesses, second_accesses, first, second),
    ensures
        decoy_added(len, positions, first, first_accesses, layout, variable_count, marker, fresh_value, q, j) == decoy_added(len, positions, second,
            second_accesses, layout, variable_count, marker, fresh_value, q, j),
{
    lemma_projected(positions, first, second, len, edge_values(layout, variable_count, marker), Some(q as usize), positions.len() as int);
    assert(first[q]@ == second[q]@);
    assert(first_accesses[q].key_columns@ == second_accesses[q].key_columns@);
}

/// The decoys of the first `upto` key columns read only the plan's views.
proof fn lemma_column_decoys(
    sets: Seq<Set<Seq<i32>>>,
    positions: Seq<usize>,
    first: Seq<Vec<usize>>,
    second: Seq<Vec<usize>>,
    first_accesses: Seq<AccessPattern>,
    second_accesses: Seq<AccessPattern>,
    layout: PlantingLayout,
    variable_count: nat,
    marker: int,
    fresh_value: int,
    q: int,
    upto: nat,
)
    requires
        0 <= q < first_accesses.len(),
        first_accesses.len() == first.len(),
        positions.len() <= first.len(),
        same_views(first_accesses, second_accesses, first, second),
    ensures
        column_decoy_sets(sets, positions, first, first_accesses, layout, variable_count, marker, fresh_value, q, upto) == column_decoy_sets(sets,
            positions, second, second_accesses, layout, variable_count, marker, fresh_value, q, upto),
    decreases upto,
{
    if upto > 0 {
        lemma_column_decoys(sets, positions, first, second, first_accesses, second_accesses, layout, variable_count, marker, fresh_value, q,
            (upto - 1) as nat);
        lemma_decoy_added(sets.len(), positions, first, second, first_accesses, second_accesses, layout, variable_count, marker + upto - 1,
            fresh_value + upto - 1, q, upto - 1);
    }
}

/// The composite-key decoys read only the plan's views.
proof fn lemma_decoys(
    sets: Seq<Set<Seq<i32>>>,
    positions: Seq<usize>,
    first: Seq<Vec<usize>>,
    second: Seq<Vec<usize>>,
    first_accesses: Seq<AccessPattern>,
    second_accesses: Seq<AccessPattern>,
    layout: PlantingLayout,
    variable_count: nat,
    marker: int,
    fresh_value: int,
    upto: nat,
)
    requires
        upto <= first_accesses.len(),
        first_accesses.len() == first.len(),
        positions.len() <= first.len(),
        same_views(first_accesses, second_accesses, first, second),
    ensures
        decoy_sets(sets, positions, first, first_accesses, layout, variable_count, marker, fresh_value, upto) == decoy_sets(sets, positions, second,
            second_accesses, layout, variable_count, marker, fresh_value, upto),
    decreases upto,
{
    if upto > 0 {
        let q = upto - 1;
        lemma_decoys(sets, positions, first, second, first_accesses, second_accesses, layout, variable_count, marker, fresh_value, (upto - 1) as nat);
        lemma_counts(Seq::empty(), first_accesses, second_accesses, first, (upto - 1) as nat);
        assert(same_views(first_accesses, second_accesses, first, first));
        let before = decoy_sets(sets, positions, first, first_accesses, layout, variable_count, marker, fresh_value, (upto - 1) as nat);
        let ct = composite_key_total(first_accesses, (upto - 1) as nat) as int;
        assert(first_accesses[q].key_columns@ == second_accesses[q].key_columns@);
        lemma_column_decoys(before, positions, first, second, first_accesses, second_accesses, layout, variable_count, marker + ct, fresh_value + ct,
            q, first_accesses[q].key_columns@.len());
    }
}

/// The fresh values drawn and the complement pairs read only the plan's
/// views.
proof fn lemma_complements(
    sets: Seq<Set<Seq<i32>>>,
    atoms: Seq<Atom>,
    first: Seq<AccessPattern>,
    second: Seq<AccessPattern>,
    positions: Seq<usize>,
    first_slots: Seq<Vec<usize>>,
    second_slots: Seq<Vec<usize>>,
    names: Seq<Seq<char>>,
    layout: PlantingLayout,
    start: int,
    fresh: int,
    upto: nat,
)
    requires
        upto <= first.len(),
        first.len() == first_slots.len(),
        positions.len() <= first_slots.len(),
        same_views(first, second, first_slots, second_slots),
    ensures
        fresh_drawn(first, atoms, names, upto) == fresh_drawn(second, atoms, names, upto),
        complement_sets(sets, atoms, first, positions, first_slots, names, layout, start, fresh, upto) == complement_sets(sets, atoms, second,
            positions, second_slots, names, layout, start, fresh, upto),
    decreases upto,
{
    if upto > 0 {
        let i = upto - 1;
        lemma_complements(sets, atoms, first, second, positions, first_slots, second_slots, names, layout, start, fresh, (upto - 1) as nat);
        lemma_counts(atoms, first, second, first_slots, (upto - 1) as nat);
        assert(first[i].occurrence == second[i].occurrence);
        assert(names_view(first[i].bound_variables@) == names_view(second[i].bound_variables@));
        let values = edge_values(layout, names.len(), start + partial_count(first, atoms, (upto - 1) as nat));
        let other = complement_values(values, names, names_view(first[i].bound_variables@), layout.fresh_base as int, fresh + fresh_drawn(first,
            atoms, names, (upto - 1) as nat));
        lemma_projected(positions, first_slots, second_slots, sets.len(), values, None, positions.len() as int);
        lemma_projected(positions, first_slots, second_slots, sets.len(), other, None, positions.len() as int);
    }
}

/// Coverage planting reads only the plan's views.
proof fn lemma_coverage(
    sets: Seq<Set<Seq<i32>>>,
    atoms: Seq<Atom>,
    first: Seq<AccessPattern>,
    second: Seq<AccessPattern>,
    positions: Seq<usize>,
    first_slots: Seq<Vec<usize>>,
    second_slots: Seq<Vec<usize>>,
    memberships: Seq<usize>,
    names: Seq<Seq<char>>,
    existentials: Seq<Seq<char>>,
    layout: PlantingLayout,
    distinct_rows: nat,
    planted_witnesses: int,
)
    requires
        first.len() == first_slots.len(),
        positions.len() <= first_slots.len(),
        same_views(first, second, first_slots, second_slots),
    ensures
        coverage_sets(sets, atoms, first, positions, first_slots, memberships, names, existentials, layout, distinct_rows, planted_witnesses)
            == coverage_sets(sets, atoms, second, positions, second_slots, memberships, names, existentials, layout, distinct_rows,
            planted_witnesses),
{
    reveal(coverage_sets);
    let vc = names.len();
    let all = first.len();
    let primary = projected_sets(positions, first_slots, sets.len(), witness_values(layout, vc, 0), None, positions.len() as int);
    lemma_projected(positions, first_slots, second_slots, sets.len(), witness_values(layout, vc, 0), None, positions.len() as int);
    let anti = anti_sets(union_sets(sets, primary), positions, first_slots, memberships, layout, vc, memberships.len());
    lemma_anti(union_sets(sets, primary), positions, first_slots, second_slots, memberships, layout, vc, memberships.len());
    let missing = missing_key_sets(anti, atoms, first, positions, first_slots, layout, vc, 0, all);
    lemma_missing(anti, atoms, first, second, positions, first_slots, second_slots, layout, vc, 0, all);
    lemma_counts(atoms, first, second, first_slots, all);
    let pt = partial_count(first, atoms, all) as int;
    let cm = composite_key_total(first, all) as int;
    let decoyed = decoy_sets(missing, positions, first_slots, first, layout, vc, pt, layout.fresh_base as int, all);
    lemma_decoys(missing, positions, first_slots, second_slots, first, second, layout, vc, pt, layout.fresh_base as int, all);
    let paired = complement_sets(decoyed, atoms, first, positions, first_slots, names, layout, pt + cm, cm, all);
    lemma_complements(decoyed, atoms, first, second, positions, first_slots, second_slots, names, layout, pt + cm, cm, all);
    let fresh = cm + fresh_drawn(first, atoms, names, all);
    let shared = shared_head_sets(paired, positions, first_slots, names, existentials, layout, 2 * pt + cm, fresh);
    let head_first = edge_values(layout, vc, 2 * pt + cm);
    lemma_projected(positions, first_slots, second_slots, paired.len(), head_first, None, positions.len() as int);
    lemma_projected(positions, first_slots, second_slots, paired.len(), shared_values(head_first, names, existentials, layout.fresh_base as int,
        fresh, existentials.len() as int), None, positions.len() as int);
    assert(shared == shared_head_sets(paired, positions, second_slots, names, existentials, layout, 2 * pt + cm, fresh));
    lemma_witnesses(shared, positions, first_slots, second_slots, layout, vc, distinct_rows, planted_witnesses, 1);
}

/// Two strictly increasing lists of the same indices are equal.
proof fn lemma_increasing_unique(first: Seq<usize>, second: Seq<usize>)
    requires
        forall|i: int, j: int| 0 <= i < j < first.len() ==> first[i] < first[j],
        forall|i: int, j: int| 0 <= i < j < second.len() ==> second[i] < second[j],
        forall|x: usize| first.contains(x) <==> second.contains(x),
    ensures
        first == second,
    decreases first.len(),
{
    if first.len() == 0 {
        if second.len() > 0 {
            assert(second.contains(second[0]));
        }
        assert(first =~= second);
    } else if second.len() == 0 {
        assert(first.contains(first[0]));
    } else {
        assert(first.contains(first[0]));
        assert(second.contains(second[0]));
        let i = choose|i: int| 0 <= i < second.len() && second[i] == first[0];
        let j = choose|j: int| 0 <= j < first.len() && first[j] == second[0];
        assert(first[0] == second[0]) by {
            if first[0] != second[0] {
                assert(i > 0 && j > 0);
                assert(second[0] < second[i]);
                assert(first[0] < first[j]);
            }
        }
        let a = first.drop_first();
        let b = second.drop_first();
        assert forall|x: usize| a.contains(x) <==> b.contains(x) by {
            if a.contains(x) {
                let k = choose|k: int| 0 <= k < a.len() && a[k] == x;
                assert(first[0] < first[k + 1]);
                assert(first.contains(x));
                let m = choose|m: int| 0 <= m < second.len() && second[m] == x;
                assert(m != 0);
                assert(b[m - 1] == x);
            }
            if b.contains(x) {
                let k = choose|k: int| 0 <= k < b.len() && b[k] == x;
                assert(second[0] < second[k + 1]);
                assert(second.contains(x));
                let m = choose|m: int| 0 <= m < first.len() && first[m] == x;
                assert(m != 0);
                assert(a[m - 1] == x);
            }
        }
        lemma_increasing_unique(a, b);
        assert(first =~= seq![first[0]] + a);
        assert(second =~= seq![second[0]] + b);
    }
}

/// A query has one plan up to views: two plans agree on every access
/// pattern's view, every slot list, the memberships and the layout.
proof fn lemma_plan_unique(
    module: CqModule,
    seed: u64,
    l: Limits,
    first: Seq<AccessPattern>,
    second: Seq<AccessPattern>,
    first_slots: Seq<Vec<usize>>,
    second_slots: Seq<Vec<usize>>,
    first_memberships: Seq<usize>,
    second_memberships: Seq<usize>,
    first_layout: PlantingLayout,
    second_layout: PlantingLayout,
)
    requires
        coverage_plan(module, seed, l, first, first_slots, first_memberships, first_layout),
        coverage_plan(module, seed, l, second, second_slots, second_memberships, second_layout),
    ensures
        same_views(first, second, first_slots, second_slots),
        first_memberships == second_memberships,
        first_layout == second_layout,
{
    let atoms = module.body@;
    let names = body_variables(module);
    lemma_first_occurrences(flat_vars(atoms));
    assert forall|i: int| 0 <= i < first.len() implies (#[trigger] first[i]).occurrence == second[i].occurrence && first[i].key_columns@
        == second[i].key_columns@ && names_view(first[i].bound_variables@) == names_view(second[i].bound_variables@) by {
        assert(access_spec(atoms, i, first[i]));
        assert(access_spec(atoms, i, second[i]));
    }
    assert forall|k: int| 0 <= k < first_slots.len() implies (#[trigger] first_slots[k])@ == second_slots[k]@ by {
        assert(first_slots[k]@.len() == atoms[k].vars().len());
        assert(second_slots[k]@.len() == atoms[k].vars().len());
        assert forall|c: int| 0 <= c < first_slots[k]@.len() implies first_slots[k]@[c] == second_slots[k]@[c] by {
            let x = first_slots[k]@[c] as int;
            let y = second_slots[k]@[c] as int;
            assert(names[x] == atoms[k].vars()[c]);
            assert(names[y] == atoms[k].vars()[c]);
        }
        assert(first_slots[k]@ =~= second_slots[k]@);
    }
    assert forall|x: usize| first_memberships.contains(x) <==> second_memberships.contains(x) by {
        if first_memberships.contains(x) {
            let j = choose|j: int| 0 <= j < first_memberships.len() && first_memberships[j] == x;
            assert(is_membership(atoms, first_memberships[j] as int));
        }
        if second_memberships.contains(x) {
            let j = choose|j: int| 0 <= j < second_memberships.len() && second_memberships[j] == x;
            assert(is_membership(atoms, second_memberships[j] as int));
        }
    }
    lemma_increasing_unique(first_memberships, second_memberships);
    lemma_counts(atoms, first, second, first_slots, first.len());
}

/// Generation is reproducible: two datasets that hold the rows generated
/// for one query from one seed under one row target, with the same input
/// left empty (or none), have the same raw rows in the same order in every
/// input.
pub proof fn generation_is_reproducible(
    module: CqModule,
    seed: u64,
    l: Limits,
    first: Seq<crate::dataset::RelationData>,
    second: Seq<crate::dataset::RelationData>,
    emptied: int,
)
    requires
        planted_exactly(module, seed, l, first, emptied),
        planted_exactly(module, seed, l, second, emptied),
    ensures
        first.len() == second.len(),
        forall|p: int| 0 <= p < first.len() ==> #[trigger] first[p].rows_spec() == second[p].rows_spec(),
{
    reveal(planted_with);
    reveal(crate::generate::relations_generated);
    let (a1, s1, m1, y1, k1) = choose|a: Seq<AccessPattern>, s: Seq<Vec<usize>>, m: Seq<usize>, y: PlantingLayout, k: Seq<Option<Vec<i32>>>|
        #[trigger] planted_with(module, seed, l, first, emptied, a, s, m, y, k);
    let (a2, s2, m2, y2, k2) = choose|a: Seq<AccessPattern>, s: Seq<Vec<usize>>, m: Seq<usize>, y: PlantingLayout, k: Seq<Option<Vec<i32>>>|
        #[trigger] planted_with(module, seed, l, second, emptied, a, s, m, y, k);
    lemma_plan_unique(module, seed, l, a1, a2, s1, s2, m1, m2, y1, y2);
    let n = module.inputs@.len();
    assert(first.len() == n && second.len() == n);
    let atoms = module.body@;
    let names = body_variables(module);
    let positions = body_positions(module);
    let empty = Seq::new(n, |p: int| Set::<Seq<i32>>::empty());
    lemma_coverage(empty, atoms, a1, a2, positions, s1, s2, m1, names, crate::analysis::without(names, module.head.vars()), y1,
        l.distinct_rows as nat, l.planted_witnesses as int);
    let goal = planned_sets(module, l, n, a1, s1, m1, y1);
    assert(goal == planned_sets(module, l, n, a2, s2, m2, y2));
    let primary_values = witness_values(y1, names.len(), 0);
    lemma_projected(positions, s1, s2, n, primary_values, None, positions.len() as int);
    assert forall|p: int| 0 <= p < n implies #[trigger] crate::generate::leading_rows(k1[p]) == crate::generate::leading_rows(k2[p]) by {
        assert(primary_markers(k1, positions, s1, y1, names.len(), n));
        assert(primary_markers(k2, positions, s2, y2, names.len(), n));
        least_marker_is_unique(k1[p], k2[p], projected_sets(positions, s1, n, primary_values, None, positions.len() as int)[p]);
    }
    rows_follow_markers(module.inputs@, first, second, goal, k1, k2, seed.wrapping_add(crate::generate::splitmix_gamma()),
        l.distinct_rows as nat, emptied);
}

/// Powers of a natural exponent grow with their base.
proof fn lemma_pow_base(a: int, b: int, e: nat)
    requires
        1 <= a <= b,
    ensures
        1 <= pow(a, e) <= pow(b, e),
    decreases e,
{
    reveal(pow);
    if e > 0 {
        lemma_pow_base(a, b, (e - 1) as nat);
        let x = pow(a, (e - 1) as nat);
        let y = pow(b, (e - 1) as nat);
        assert(a * x <= b * y) by (nonlinear_arith)
            requires
                1 <= a <= b,
                1 <= x <= y,
        ;
        assert(1 <= a * x) by (nonlinear_arith)
            requires
                1 <= a,
                1 <= x,
        ;
    }
}

/// A value has one integer root of each degree.
proof fn lemma_root_unique(first: int, second: int, value: int, exponent: nat)
    requires
        is_nth_root(first, value, exponent),
        is_nth_root(second, value, exponent),
    ensures
        first == second,
{
    if value >= 1 {
        if first < second {
            lemma_pow_base(first + 1, second, exponent);
        } else if second < first {
            lemma_pow_base(second + 1, first, exponent);
        }
    }
}

/// A scale and a count of components give one pair of limits.
proof fn lemma_limits_unique(scale: crate::Scale, components: nat, first: Limits, second: Limits)
    requires
        shape_limits(scale, components, first),
        shape_limits(scale, components, second),
    ensures
        first == second,
{
    if components > 1 {
        let cap = scale_budget(scale).2 as int;
        let r1 = choose|root: int| is_nth_root(root, cap, components) && (first.distinct_rows as int, first.planted_witnesses as int)
            == crate::generate::limits_spec(scale, components, root);
        let r2 = choose|root: int| is_nth_root(root, cap, components) && (second.distinct_rows as int, second.planted_witnesses as int)
            == crate::generate::limits_spec(scale, components, root);
        lemma_root_unique(r1, r2, cap, components);
    }
}

/// The rows that the generation contract fixes for each scenario under
/// limits `l`.
pub open spec fn rows_drawn(module: CqModule, config: crate::GenerationConfig, l: Limits, relations: Seq<crate::dataset::RelationData>) -> bool {
    &&& config.scenario == crate::Scenario::Coverage ==> planted_exactly(module, config.seed, l, relations, -1)
    &&& config.scenario == crate::Scenario::NoMatch ==> relations_generated(module.inputs@, relations, no_rows(module.inputs@.len()),
        no_markers(module.inputs@.len()), config.seed.wrapping_add(splitmix_gamma()), l.distinct_rows as nat, -1)
    &&& config.scenario == crate::Scenario::EmptyInput ==> planted_exactly(module, config.seed, l, relations,
        crate::analysis::position_of(module.inputs@, module.body@.last()))
}

/// Generating data is deterministic: two datasets that generating data for
/// one query, suite, case name and configuration returns hold the same rows,
/// in the same raw order, in every input.
pub proof fn generate_module_is_reproducible(
    module: CqModule,
    suite: crate::Suite,
    case_name: Seq<char>,
    config: crate::GenerationConfig,
    first: crate::dataset::Dataset,
    second: crate::dataset::Dataset,
)
    requires
        generation_outcome(module, suite, case_name, config, Ok(first)),
        generation_outcome(module, suite, case_name, config, Ok(second)),
    ensures
        first.relations@.len() == second.relations@.len(),
        forall|p: int| 0 <= p < first.relations@.len() ==> #[trigger] first.relations@[p].rows_spec() == second.relations@[p].rows_spec(),
{
    let components = crate::analysis::component_count(module.body@, module.body@.len());
    let l1 = choose|l: Limits|
        #[trigger] shape_limits(config.scale, components, l) && rows_drawn(module, config, l, first.relations@);
    let l2 = choose|l: Limits|
        #[trigger] shape_limits(config.scale, components, l) && rows_drawn(module, config, l, second.relations@);
    lemma_limits_unique(config.scale, components, l1, l2);
    let n = module.inputs@.len();
    match config.scenario {
        crate::Scenario::Coverage => {
            generation_is_reproducible(module, config.seed, l1, first.relations@, second.relations@, -1);
        },
        crate::Scenario::EmptyInput => {
            generation_is_reproducible(module, config.seed, l1, first.relations@, second.relations@,
                crate::analysis::position_of(module.inputs@, module.body@.last()));
        },
        crate::Scenario::NoMatch => {
            reveal(relations_generated);
            rows_follow_markers(module.inputs@, first.relations@, second.relations@, no_rows(n), no_markers(n), no_markers(n),
                config.seed.wrapping_add(splitmix_gamma()), l1.distinct_rows as nat, -1);
        },
    }
}

} // verus!
