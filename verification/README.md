# cq_workloads

Deterministic workloads for checking a compiler of positive conjunctive
queries: two catalogs of queries, a seeded generator of input data for three
scenarios at three scales, exact text formats for datasets and answers, and
a SQL translation that DuckDB can evaluate as an oracle.

The library in `src/` is verified with Verus:

- `lib.rs`: suites, scales, scenarios, the query case record, case lookup
  and the FNV-1a case seed.
- `catalog.rs`: the classic and retail catalogs and the query of every case.
- `model.rs`: plain values for a query: declared inputs, head and body atoms.
- `analysis.rs`: variable order, access patterns, memberships, connected
  components, and the checks that decide which scenarios a query admits.
- `generate.rs`: SplitMix64 (a counter under a mixing function), per-shape
  limits, planting of witnesses and edge cases, disjoint negative noise, and
  `generate_module`. Its contract states when each refusal comes (a refused
  scenario gets the error of the scenario check); that no-match data is
  generated for every admitted query of moderate size with well-formed,
  noise-fitting inputs, and coverage and empty-input data under the same
  conditions for an admitted query whose atoms have their declared widths
  and whose row target has room for every planted proof; and, for the data
  it returns: validity, the exact distinct-row target
  of every input, the witness drawn from the seed, and the answer behaviour
  of each scenario (empty-input and no-match data have no answer; coverage
  data has one and makes every membership, projected-away variable, partial
  lookup, composite key column and raw duplicate observable; where the
  head keeps every body variable, the head tuple of each membership's
  left-out assignment is no answer of the full query). Coverage planting
  states its rows exactly, phase by phase, as sets over the value layout,
  and each input's duplicate marker as its least primary row. The contract
  of `generate_module` fixes every raw row of the data it returns: the
  planted rows, the noise drawn from the seed, the emptied input, the
  duplicates and the shuffled order.
- `reproduce.rs`: generation is deterministic. Two datasets generated for
  one query and configuration have the same rows in the same order.
- `rows.rs`: sorted row sets, and the one increasing order of a set.
- `dataset.rs`, `manifest.rs`: relations, manifests, their validation, and
  the CSV and manifest text formats with their round-trip laws.
- `sql.rs`: the SQL text of a query and of the raw input tables, stated
  exactly.
- `tasks.rs`: command-line options, artifact paths, scenario skipping, row
  comparison, and reading a program's printed rows.
- `explain.rs`: compiler trace stages, options, the trace guide, failure
  reports, the CQ stage file of every catalog program, and the line layout
  of rendered programs.
- `text.rs`, `split.rs`: decimal text, string building, splitting and lines.

`tests/` exercises the library on concrete values. `app/` is the command-line
program: file and directory I/O, the DuckDB oracle, and messages.
