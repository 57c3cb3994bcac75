//! The two workload catalogs: every case's name, teaching metadata, and
//! query program, in their documented order.

use vstd::prelude::*;

use crate::model::{Atom, CqModule, RelationDecl};
use crate::{QueryCase, QueryProgram, Suite};

verus! {

/// The scope note of every classic case but `spade`.
pub const COLORED_CQ_SCOPE: &'static str = "MiniLinq evaluates a set-valued colored conjunctive query (a homomorphism pattern), not induced-subgraph matching: no pairwise inequality or non-edge constraint is implied.";

/// The scope note of `spade`.
pub const SPADE_SCOPE: &'static str = "`spade` is this course's alias for the triangle-with-one-edge-handle shape called lollipop in join-processing literature and paw in graph theory. It remains a colored CQ/homomorphism pattern, not induced-subgraph matching: no pairwise inequality or non-edge constraint is implied.";

/// The classic case names, in catalog order.
pub open spec fn classic_names() -> Seq<Seq<char>> {
    seq![
        "intersection"@,
        "cartesian-product"@,
        "oriented-chain"@,
        "claw"@,
        "fact-star"@,
        "triangle"@,
        "cycle-4"@,
        "spade"@,
        "barbell"@,
        "loomis-whitney-4"@,
    ]
}

/// The retail case names, in catalog order.
pub open spec fn retail_names() -> Seq<Seq<char>> {
    seq![
        "retail_h03"@,
        "retail_h05"@,
        "retail_h07"@,
        "retail_h08"@,
        "retail_h09"@,
        "retail_h21_positive"@,
        "retail_d19"@,
        "retail_d27"@,
        "retail_d72_inner"@,
        "retail_d85"@,
    ]
}

/// The names of a list of cases.
pub open spec fn case_names(cases: Seq<QueryCase>) -> Seq<Seq<char>> {
    cases.map_values(|c: QueryCase| c.name@)
}

/// The purposes of a list of cases.
pub open spec fn case_purposes(cases: Seq<QueryCase>) -> Seq<Seq<char>> {
    cases.map_values(|c: QueryCase| c.purpose@)
}

/// The scope notes of a list of cases.
pub open spec fn case_scope_notes(cases: Seq<QueryCase>) -> Seq<Seq<char>> {
    cases.map_values(|c: QueryCase| c.scope_note@)
}

/// What each classic case exercises, in catalog order.
pub open spec fn classic_purposes() -> Seq<Seq<char>> {
    seq![
        "The smallest equality join: scan one unary relation, then perform full-key membership in the other. It exercises a fully bound clause with no complement columns."@,
        "A disconnected CQ whose second atom shares no variables with the first. It verifies that a later zero-bound-key occurrence remains an independent row scan rather than acquiring an index."@,
        "A three-edge chain over one self-joined relation. Its source order requires both Edge[0] and the non-leading Edge[1] index from one normalized input; projecting away b and c also exercises output set semantics."@,
        "The variable-graph star K_1,3 (the claw): an acyclic branch that repeatedly reuses one center binding while enumerating three independent leaves."@,
        "The traditional relation-join-graph star: scan one ternary fact relation, then probe three dimensions through different fact columns. It distinguishes a fact/dimension star from the variable-graph claw."@,
        "The minimal cyclic CQ and the repository's recurring baseline: one scan, one partial lookup, and one full-key membership that closes the cycle."@,
        "A chordless four-cycle: cyclic but not a clique. It extends the partial-lookup chain before a final full-key membership closes the cycle."@,
        "A triangle with a one-edge handle: execution closes the cyclic core and then resumes a branch from the earlier x binding. `spade` is the course alias for the lollipop/paw shape."@,
        "Two triangles connected by one edge. It exercises two separated cyclic regions, two full-key membership closures, and a deeper resumable continuation than the one-cycle cases."@,
        "The four-dimensional Loomis-Whitney query: each ternary atom omits a different variable. It exercises a two-column partial key followed by full ternary memberships and is not a padded larger clique."@,
    ]
}

/// What each retail case exercises, in catalog order.
pub open spec fn retail_purposes() -> Seq<Seq<char>> {
    seq![
        "A customer-to-order-to-lineitem chain whose two successive foreign-key bindings become partial-key lookups; its narrow head also exercises output set semantics."@,
        "A genuine Customer-Orders-Lineitem-Supplier-Nation cycle with a Region tail; the shared nation binding closes the cycle before a final dimension membership."@,
        "A shipping chain with two role-playing accesses to one Nation input; both occurrences require the same key shape and should share one physical index."@,
        "A branched snowflake rooted at Lineitem, with independent part, supplier-nation, and order-customer-region branches and two differently bound Nation occurrences."@,
        "A fact-centered cyclic/diamond shape whose PartSupp occurrence is a fully bound composite-key membership rather than two independent unary probes."@,
        "A positive same-order witness with two Lineitem occurrences reached through different bound columns, forcing separate supplier-key and order-key indexes on one input."@,
        "A StoreSales snowflake with direct date, item, and store dimensions plus a two-hop customer-to-address branch."@,
        "A conventional fact-to-four-dimensions star that contrasts with the variable-graph claw and the deeper D19 snowflake."@,
        "A CatalogSales-to-Inventory fact join correlated through item and DateDim week, with three DateDim roles that require partial lookup, full membership, and index reuse."@,
        "A composite order/item sale-return join with two role-playing CustomerDemo memberships that should share one full-key index."@,
    ]
}

/// The scope note of each retail case, in catalog order.
pub open spec fn retail_scope_notes() -> Seq<Seq<char>> {
    seq![
        "Inspired only by the Customer-Orders-Lineitem join topology of TPC-H Query 3. It changes the projection and omits the market-segment and date filters, revenue expression and aggregation, ordering, and limit; it adds no outer-join or negative semantics and is not a compliant TPC query or result."@,
        "Inspired only by the join topology of TPC-H Query 5. It changes the projection and omits the region and order-date filters, price/discount expression and revenue aggregation, and ordering; it adds no outer-join or negative semantics and is not a compliant TPC query or result."@,
        "Inspired only by the two-nation join topology of TPC-H Query 7. It changes the projection and omits the nation-pair disjunction and ship-date filters, price/discount expression and revenue aggregation, year extraction, and ordering; it adds no outer-join or negative semantics and is not a compliant TPC query or result."@,
        "Inspired only by the snowflake join topology of TPC-H Query 8. It changes the projection and omits the part-type, region, nation, and order-date filters, price/discount and conditional market-share aggregates, year extraction, and ordering; it adds no outer-join or negative semantics and is not a compliant TPC query or result."@,
        "Inspired only by the composite PartSupp join topology of TPC-H Query 9. It changes the projection and omits the part-name filter, price, discount, cost, and quantity arithmetic, profit aggregation, year extraction, and ordering; it adds no outer-join or negative semantics and is not a compliant TPC query or result."@,
        "Inspired only by the positive witness joins inside TPC-H Query 21. It changes the projection and deliberately omits the order-status, receipt/commit-date, and nation filters, the different-supplier inequality, the NOT EXISTS negative witness, count aggregation, ordering, and limit; it uses no outer-join semantics and is not a compliant TPC query or result."@,
        "Inspired only by the join topology of TPC-DS Query 19. It changes the projection and omits the manager, month, year, and ZIP-inequality filters, brand and manufacturer attributes, sales-price aggregation, ordering, and limit; it adds no outer-join or negative semantics and is not a compliant TPC query or result."@,
        "Inspired only by the StoreSales star inside TPC-DS Query 27. It changes the projection and omits demographic, year, and state filters, quantity and price measure averages, grouped/union result construction, ordering, and limit; it adds no outer-join or negative semantics and is not a compliant TPC query or result."@,
        "Inspired only by the inner-join spine of TPC-DS Query 72. It deliberately omits the Promotion and CatalogReturns left outer joins, all date, demographic, inventory, and shipping filters, CASE/count aggregates, grouping, ordering, and limit; it adds no negative semantics and is not a compliant TPC query or result."@,
        "Inspired only by the join topology of TPC-DS Query 85. It changes the projection and omits the date, demographic, price, profit, country, and address filters, reason-text projection, average aggregations, grouping, ordering, and limit; it adds no outer-join or negative semantics and is not a compliant TPC query or result."@,
    ]
}

/// The query programs of a list of cases.
pub open spec fn case_programs(cases: Seq<QueryCase>) -> Seq<QueryProgram> {
    cases.map_values(|c: QueryCase| c.program)
}

/// The classic query programs, in catalog order.
pub open spec fn classic_programs() -> Seq<QueryProgram> {
    seq![
        QueryProgram::Intersection,
        QueryProgram::CartesianProduct,
        QueryProgram::OrientedChain,
        QueryProgram::Claw,
        QueryProgram::FactStar,
        QueryProgram::Triangle,
        QueryProgram::Cycle4,
        QueryProgram::Spade,
        QueryProgram::Barbell,
        QueryProgram::LoomisWhitney4,
    ]
}

/// The retail query programs, in catalog order.
pub open spec fn retail_programs() -> Seq<QueryProgram> {
    seq![
        QueryProgram::RetailH03,
        QueryProgram::RetailH05,
        QueryProgram::RetailH07,
        QueryProgram::RetailH08,
        QueryProgram::RetailH09,
        QueryProgram::RetailH21Positive,
        QueryProgram::RetailD19,
        QueryProgram::RetailD27,
        QueryProgram::RetailD72Inner,
        QueryProgram::RetailD85,
    ]
}

/// The source file of a case's query program: its name, `-` written `_`,
/// under the suite's directory.
pub open spec fn source_path(suite: Suite, name: Seq<char>) -> Seq<char> {
    "workloads/src/queries/"@ + suite.name_spec() + "/"@ + name.map_values(|c: char| if c == '-' { '_' } else { c }) + ".rs"@
}

/// A retail scope note disclaims the benchmark it was derived from.
pub open spec fn disclaims_benchmark(note: Seq<char>) -> bool {
    &&& note.len() >= 39
    &&& note.take(13) == "Inspired only"@
    &&& note.skip(note.len() - 39) == "is not a compliant TPC query or result."@
}

/// Every case belongs to `suite`.
pub open spec fn all_in_suite(cases: Seq<QueryCase>, suite: Suite) -> bool {
    forall|i: int| 0 <= i < cases.len() ==> (#[trigger] cases[i]).suite == suite
}

/// Ten small, structurally distinct positive CQs used throughout the course.
///
/// The order and command-line names are public workload data. Each entry keeps
/// its complete rule in one program, so a geometric nickname can never define
/// semantics by itself.
pub fn classic() -> (r: Vec<QueryCase>)
    ensures
        case_names(r@) == classic_names(),
        case_programs(r@) == classic_programs(),
        case_purposes(r@) == classic_purposes(),
        all_in_suite(r@, Suite::Classic),
        forall|k: int| 0 <= k < r@.len() ==> (#[trigger] r@[k]).rust_path@ == source_path(Suite::Classic, r@[k].name@),
        forall|k: int| 0 <= k < r@.len() ==> (#[trigger] r@[k]).scope_note@ == (if k == 7 { SPADE_SCOPE@ } else { COLORED_CQ_SCOPE@ }),
{
    let cases = vec![
        QueryCase {
            suite: Suite::Classic,
            name: "intersection",
            rust_path: "workloads/src/queries/classic/intersection.rs",
            purpose: "The smallest equality join: scan one unary relation, then perform full-key membership in the other. It exercises a fully bound clause with no complement columns.",
            scope_note: COLORED_CQ_SCOPE,
            program: QueryProgram::Intersection,
        },
        QueryCase {
            suite: Suite::Classic,
            name: "cartesian-product",
            rust_path: "workloads/src/queries/classic/cartesian_product.rs",
            purpose: "A disconnected CQ whose second atom shares no variables with the first. It verifies that a later zero-bound-key occurrence remains an independent row scan rather than acquiring an index.",
            scope_note: COLORED_CQ_SCOPE,
            program: QueryProgram::CartesianProduct,
        },
        QueryCase {
            suite: Suite::Classic,
            name: "oriented-chain",
            rust_path: "workloads/src/queries/classic/oriented_chain.rs",
            purpose: "A three-edge chain over one self-joined relation. Its source order requires both Edge[0] and the non-leading Edge[1] index from one normalized input; projecting away b and c also exercises output set semantics.",
            scope_note: COLORED_CQ_SCOPE,
            program: QueryProgram::OrientedChain,
        },
        QueryCase {
            suite: Suite::Classic,
            name: "claw",
            rust_path: "workloads/src/queries/classic/claw.rs",
            purpose: "The variable-graph star K_1,3 (the claw): an acyclic branch that repeatedly reuses one center binding while enumerating three independent leaves.",
            scope_note: COLORED_CQ_SCOPE,
            program: QueryProgram::Claw,
        },
        QueryCase {
            suite: Suite::Classic,
            name: "fact-star",
            rust_path: "workloads/src/queries/classic/fact_star.rs",
            purpose: "The traditional relation-join-graph star: scan one ternary fact relation, then probe three dimensions through different fact columns. It distinguishes a fact/dimension star from the variable-graph claw.",
            scope_note: COLORED_CQ_SCOPE,
            program: QueryProgram::FactStar,
        },
        QueryCase {
            suite: Suite::Classic,
            name: "triangle",
            rust_path: "workloads/src/queries/classic/triangle.rs",
            purpose: "The minimal cyclic CQ and the repository's recurring baseline: one scan, one partial lookup, and one full-key membership that closes the cycle.",
            scope_note: COLORED_CQ_SCOPE,
            program: QueryProgram::Triangle,
        },
        QueryCase {
            suite: Suite::Classic,
            name: "cycle-4",
            rust_path: "workloads/src/queries/classic/cycle_4.rs",
            purpose: "A chordless four-cycle: cyclic but not a clique. It extends the partial-lookup chain before a final full-key membership closes the cycle.",
            scope_note: COLORED_CQ_SCOPE,
            program: QueryProgram::Cycle4,
        },
        QueryCase {
            suite: Suite::Classic,
            name: "spade",
            rust_path: "workloads/src/queries/classic/spade.rs",
            purpose: "A triangle with a one-edge handle: execution closes the cyclic core and then resumes a branch from the earlier x binding. `spade` is the course alias for the lollipop/paw shape.",
            scope_note: SPADE_SCOPE,
            program: QueryProgram::Spade,
        },
        QueryCase {
            suite: Suite::Classic,
            name: "barbell",
            rust_path: "workloads/src/queries/classic/barbell.rs",
            purpose: "Two triangles connected by one edge. It exercises two separated cyclic regions, two full-key membership closures, and a deeper resumable continuation than the one-cycle cases.",
            scope_note: COLORED_CQ_SCOPE,
            program: QueryProgram::Barbell,
        },
        QueryCase {
            suite: Suite::Classic,
            name: "loomis-whitney-4",
            rust_path: "workloads/src/queries/classic/loomis_whitney_4.rs",
            purpose: "The four-dimensional Loomis-Whitney query: each ternary atom omits a different variable. It exercises a two-column partial key followed by full ternary memberships and is not a padded larger clique.",
            scope_note: COLORED_CQ_SCOPE,
            program: QueryProgram::LoomisWhitney4,
        },
    ];
    proof {
        reveal_strlit("workloads/src/queries/");
        reveal_strlit("classic");
        reveal_strlit("/");
        reveal_strlit(".rs");
        reveal_strlit("intersection");
        reveal_strlit("cartesian-product");
        reveal_strlit("oriented-chain");
        reveal_strlit("claw");
        reveal_strlit("fact-star");
        reveal_strlit("triangle");
        reveal_strlit("cycle-4");
        reveal_strlit("spade");
        reveal_strlit("barbell");
        reveal_strlit("loomis-whitney-4");
        reveal_strlit("workloads/src/queries/classic/intersection.rs");
        reveal_strlit("workloads/src/queries/classic/cartesian_product.rs");
        reveal_strlit("workloads/src/queries/classic/oriented_chain.rs");
        reveal_strlit("workloads/src/queries/classic/claw.rs");
        reveal_strlit("workloads/src/queries/classic/fact_star.rs");
        reveal_strlit("workloads/src/queries/classic/triangle.rs");
        reveal_strlit("workloads/src/queries/classic/cycle_4.rs");
        reveal_strlit("workloads/src/queries/classic/spade.rs");
        reveal_strlit("workloads/src/queries/classic/barbell.rs");
        reveal_strlit("workloads/src/queries/classic/loomis_whitney_4.rs");
    }
    assert forall|k: int| 0 <= k < cases@.len() implies (#[trigger] cases@[k]).rust_path@ == source_path(Suite::Classic, cases@[k].name@) by {
        assert(cases@[k].rust_path@ =~= source_path(Suite::Classic, cases@[k].name@));
    }
    assert(case_names(cases@) =~= classic_names());
    assert(case_programs(cases@) =~= classic_programs());
    cases
}

/// Ten retail-derived join cores. They are inspired by TPC-H/TPC-DS join
/// topology and are not compliant TPC benchmark queries or results.
pub fn retail() -> (r: Vec<QueryCase>)
    ensures
        case_names(r@) == retail_names(),
        case_programs(r@) == retail_programs(),
        case_purposes(r@) == retail_purposes(),
        case_scope_notes(r@) == retail_scope_notes(),
        all_in_suite(r@, Suite::Retail),
        forall|k: int| 0 <= k < r@.len() ==> (#[trigger] r@[k]).rust_path@ == source_path(Suite::Retail, r@[k].name@),
        forall|k: int| 0 <= k < r@.len() ==> disclaims_benchmark((#[trigger] r@[k]).scope_note@),
{
    let cases = vec![
        QueryCase {
            suite: Suite::Retail,
            name: "retail_h03",
            rust_path: "workloads/src/queries/retail/retail_h03.rs",
            purpose: "A customer-to-order-to-lineitem chain whose two successive foreign-key bindings become partial-key lookups; its narrow head also exercises output set semantics.",
            scope_note: "Inspired only by the Customer-Orders-Lineitem join topology of TPC-H Query 3. It changes the projection and omits the market-segment and date filters, revenue expression and aggregation, ordering, and limit; it adds no outer-join or negative semantics and is not a compliant TPC query or result.",
            program: QueryProgram::RetailH03,
        },
        QueryCase {
            suite: Suite::Retail,
            name: "retail_h05",
            rust_path: "workloads/src/queries/retail/retail_h05.rs",
            purpose: "A genuine Customer-Orders-Lineitem-Supplier-Nation cycle with a Region tail; the shared nation binding closes the cycle before a final dimension membership.",
            scope_note: "Inspired only by the join topology of TPC-H Query 5. It changes the projection and omits the region and order-date filters, price/discount expression and revenue aggregation, and ordering; it adds no outer-join or negative semantics and is not a compliant TPC query or result.",
            program: QueryProgram::RetailH05,
        },
        QueryCase {
            suite: Suite::Retail,
            name: "retail_h07",
            rust_path: "workloads/src/queries/retail/retail_h07.rs",
            purpose: "A shipping chain with two role-playing accesses to one Nation input; both occurrences require the same key shape and should share one physical index.",
            scope_note: "Inspired only by the two-nation join topology of TPC-H Query 7. It changes the projection and omits the nation-pair disjunction and ship-date filters, price/discount expression and revenue aggregation, year extraction, and ordering; it adds no outer-join or negative semantics and is not a compliant TPC query or result.",
            program: QueryProgram::RetailH07,
        },
        QueryCase {
            suite: Suite::Retail,
            name: "retail_h08",
            rust_path: "workloads/src/queries/retail/retail_h08.rs",
            purpose: "A branched snowflake rooted at Lineitem, with independent part, supplier-nation, and order-customer-region branches and two differently bound Nation occurrences.",
            scope_note: "Inspired only by the snowflake join topology of TPC-H Query 8. It changes the projection and omits the part-type, region, nation, and order-date filters, price/discount and conditional market-share aggregates, year extraction, and ordering; it adds no outer-join or negative semantics and is not a compliant TPC query or result.",
            program: QueryProgram::RetailH08,
        },
        QueryCase {
            suite: Suite::Retail,
            name: "retail_h09",
            rust_path: "workloads/src/queries/retail/retail_h09.rs",
            purpose: "A fact-centered cyclic/diamond shape whose PartSupp occurrence is a fully bound composite-key membership rather than two independent unary probes.",
            scope_note: "Inspired only by the composite PartSupp join topology of TPC-H Query 9. It changes the projection and omits the part-name filter, price, discount, cost, and quantity arithmetic, profit aggregation, year extraction, and ordering; it adds no outer-join or negative semantics and is not a compliant TPC query or result.",
            program: QueryProgram::RetailH09,
        },
        QueryCase {
            suite: Suite::Retail,
            name: "retail_h21_positive",
            rust_path: "workloads/src/queries/retail/retail_h21_positive.rs",
            purpose: "A positive same-order witness with two Lineitem occurrences reached through different bound columns, forcing separate supplier-key and order-key indexes on one input.",
            scope_note: "Inspired only by the positive witness joins inside TPC-H Query 21. It changes the projection and deliberately omits the order-status, receipt/commit-date, and nation filters, the different-supplier inequality, the NOT EXISTS negative witness, count aggregation, ordering, and limit; it uses no outer-join semantics and is not a compliant TPC query or result.",
            program: QueryProgram::RetailH21Positive,
        },
        QueryCase {
            suite: Suite::Retail,
            name: "retail_d19",
            rust_path: "workloads/src/queries/retail/retail_d19.rs",
            purpose: "A StoreSales snowflake with direct date, item, and store dimensions plus a two-hop customer-to-address branch.",
            scope_note: "Inspired only by the join topology of TPC-DS Query 19. It changes the projection and omits the manager, month, year, and ZIP-inequality filters, brand and manufacturer attributes, sales-price aggregation, ordering, and limit; it adds no outer-join or negative semantics and is not a compliant TPC query or result.",
            program: QueryProgram::RetailD19,
        },
        QueryCase {
            suite: Suite::Retail,
            name: "retail_d27",
            rust_path: "workloads/src/queries/retail/retail_d27.rs",
            purpose: "A conventional fact-to-four-dimensions star that contrasts with the variable-graph claw and the deeper D19 snowflake.",
            scope_note: "Inspired only by the StoreSales star inside TPC-DS Query 27. It changes the projection and omits demographic, year, and state filters, quantity and price measure averages, grouped/union result construction, ordering, and limit; it adds no outer-join or negative semantics and is not a compliant TPC query or result.",
            program: QueryProgram::RetailD27,
        },
        QueryCase {
            suite: Suite::Retail,
            name: "retail_d72_inner",
            rust_path: "workloads/src/queries/retail/retail_d72_inner.rs",
            purpose: "A CatalogSales-to-Inventory fact join correlated through item and DateDim week, with three DateDim roles that require partial lookup, full membership, and index reuse.",
            scope_note: "Inspired only by the inner-join spine of TPC-DS Query 72. It deliberately omits the Promotion and CatalogReturns left outer joins, all date, demographic, inventory, and shipping filters, CASE/count aggregates, grouping, ordering, and limit; it adds no negative semantics and is not a compliant TPC query or result.",
            program: QueryProgram::RetailD72Inner,
        },
        QueryCase {
            suite: Suite::Retail,
            name: "retail_d85",
            rust_path: "workloads/src/queries/retail/retail_d85.rs",
            purpose: "A composite order/item sale-return join with two role-playing CustomerDemo memberships that should share one full-key index.",
            scope_note: "Inspired only by the join topology of TPC-DS Query 85. It changes the projection and omits the date, demographic, price, profit, country, and address filters, reason-text projection, average aggregations, grouping, ordering, and limit; it adds no outer-join or negative semantics and is not a compliant TPC query or result.",
            program: QueryProgram::RetailD85,
        },
    ];
    proof {
        reveal_strlit("Inspired only");
        reveal_strlit("is not a compliant TPC query or result.");
        reveal_strlit("Inspired only by the Customer-Orders-Lineitem join topology of TPC-H Query 3. It changes the projection and omits the market-segment and date filters, revenue expression and aggregation, ordering, and limit; it adds no outer-join or negative semantics and is not a compliant TPC query or result.");
        reveal_strlit("Inspired only by the join topology of TPC-H Query 5. It changes the projection and omits the region and order-date filters, price/discount expression and revenue aggregation, and ordering; it adds no outer-join or negative semantics and is not a compliant TPC query or result.");
        reveal_strlit("Inspired only by the two-nation join topology of TPC-H Query 7. It changes the projection and omits the nation-pair disjunction and ship-date filters, price/discount expression and revenue aggregation, year extraction, and ordering; it adds no outer-join or negative semantics and is not a compliant TPC query or result.");
        reveal_strlit("Inspired only by the snowflake join topology of TPC-H Query 8. It changes the projection and omits the part-type, region, nation, and order-date filters, price/discount and conditional market-share aggregates, year extraction, and ordering; it adds no outer-join or negative semantics and is not a compliant TPC query or result.");
        reveal_strlit("Inspired only by the composite PartSupp join topology of TPC-H Query 9. It changes the projection and omits the part-name filter, price, discount, cost, and quantity arithmetic, profit aggregation, year extraction, and ordering; it adds no outer-join or negative semantics and is not a compliant TPC query or result.");
        reveal_strlit("Inspired only by the positive witness joins inside TPC-H Query 21. It changes the projection and deliberately omits the order-status, receipt/commit-date, and nation filters, the different-supplier inequality, the NOT EXISTS negative witness, count aggregation, ordering, and limit; it uses no outer-join semantics and is not a compliant TPC query or result.");
        reveal_strlit("Inspired only by the join topology of TPC-DS Query 19. It changes the projection and omits the manager, month, year, and ZIP-inequality filters, brand and manufacturer attributes, sales-price aggregation, ordering, and limit; it adds no outer-join or negative semantics and is not a compliant TPC query or result.");
        reveal_strlit("Inspired only by the StoreSales star inside TPC-DS Query 27. It changes the projection and omits demographic, year, and state filters, quantity and price measure averages, grouped/union result construction, ordering, and limit; it adds no outer-join or negative semantics and is not a compliant TPC query or result.");
        reveal_strlit("Inspired only by the inner-join spine of TPC-DS Query 72. It deliberately omits the Promotion and CatalogReturns left outer joins, all date, demographic, inventory, and shipping filters, CASE/count aggregates, grouping, ordering, and limit; it adds no negative semantics and is not a compliant TPC query or result.");
        reveal_strlit("Inspired only by the join topology of TPC-DS Query 85. It changes the projection and omits the date, demographic, price, profit, country, and address filters, reason-text projection, average aggregations, grouping, ordering, and limit; it adds no outer-join or negative semantics and is not a compliant TPC query or result.");
    }
    proof {
        reveal_strlit("workloads/src/queries/");
        reveal_strlit("retail");
        reveal_strlit("/");
        reveal_strlit(".rs");
        reveal_strlit("retail_h03");
        reveal_strlit("retail_h05");
        reveal_strlit("retail_h07");
        reveal_strlit("retail_h08");
        reveal_strlit("retail_h09");
        reveal_strlit("retail_h21_positive");
        reveal_strlit("retail_d19");
        reveal_strlit("retail_d27");
        reveal_strlit("retail_d72_inner");
        reveal_strlit("retail_d85");
        reveal_strlit("workloads/src/queries/retail/retail_h03.rs");
        reveal_strlit("workloads/src/queries/retail/retail_h05.rs");
        reveal_strlit("workloads/src/queries/retail/retail_h07.rs");
        reveal_strlit("workloads/src/queries/retail/retail_h08.rs");
        reveal_strlit("workloads/src/queries/retail/retail_h09.rs");
        reveal_strlit("workloads/src/queries/retail/retail_h21_positive.rs");
        reveal_strlit("workloads/src/queries/retail/retail_d19.rs");
        reveal_strlit("workloads/src/queries/retail/retail_d27.rs");
        reveal_strlit("workloads/src/queries/retail/retail_d72_inner.rs");
        reveal_strlit("workloads/src/queries/retail/retail_d85.rs");
    }
    assert forall|k: int| 0 <= k < cases@.len() implies (#[trigger] cases@[k]).rust_path@ == source_path(Suite::Retail, cases@[k].name@) by {
        assert(cases@[k].rust_path@ =~= source_path(Suite::Retail, cases@[k].name@));
    }
    assert(case_names(cases@) =~= retail_names());
    assert(case_programs(cases@) =~= retail_programs());
    assert forall|k: int| 0 <= k < cases@.len() implies disclaims_benchmark((#[trigger] cases@[k]).scope_note@) by {
        let note = cases@[k].scope_note@;
        assert(note.take(13) =~= "Inspired only"@);
        assert(note.skip(note.len() - 39) =~= "is not a compliant TPC query or result."@);
    }
    cases
}

/// What a query module holds, as plain sequences.
#[verifier::ext_equal]
pub struct ModuleView {
    pub inputs: Seq<(Seq<char>, nat)>,
    pub head: (Seq<char>, Seq<Seq<char>>),
    pub body: Seq<(Seq<char>, Seq<Seq<char>>)>,
}

/// A declaration as its name and arity.
pub open spec fn decl_view(d: RelationDecl) -> (Seq<char>, nat) {
    (d.name@, d.arity as nat)
}

/// An atom as its relation and variable names.
pub open spec fn atom_view(a: Atom) -> (Seq<char>, Seq<Seq<char>>) {
    (a.relation@, a.vars())
}

/// The plain view of a query module.
pub open spec fn module_view(m: CqModule) -> ModuleView {
    ModuleView {
        inputs: m.inputs@.map_values(|d: RelationDecl| decl_view(d)),
        head: atom_view(m.head),
        body: m.body@.map_values(|a: Atom| atom_view(a)),
    }
}

/// A declared input.
fn input(name: &str, arity: usize) -> (r: RelationDecl)
    ensures
        r.name@ == name@,
        r.arity == arity,
{
    RelationDecl { name: String::from_str(name), arity }
}

/// A relation applied to variables.
fn atom(relation: &str, variables: &[&str]) -> (r: Atom)
    ensures
        r.relation@ == relation@,
        r.variables@.len() == variables@.len(),
        forall|i: int| 0 <= i < variables@.len() ==> #[trigger] r.variables@[i]@ == variables@[i]@,
        r.vars() == variables@.map_values(|v: &str| v@),
{
    let mut names: Vec<String> = Vec::new();
    for i in 0..variables.len()
        invariant
            names@.len() == i,
            forall|k: int| 0 <= k < i ==> #[trigger] names@[k]@ == variables@[k]@,
    {
        names.push(String::from_str(variables[i]));
    }
    let r = Atom { relation: String::from_str(relation), variables: names };
    assert(r.vars() =~= variables@.map_values(|v: &str| v@));
    r
}

impl QueryProgram {
    /// The name of the program's public struct.
    pub open spec fn struct_name_spec(self) -> Seq<char> {
        match self {
            QueryProgram::Intersection => "UnaryIntersectionProgram"@,
            QueryProgram::CartesianProduct => "CartesianProgram"@,
            QueryProgram::OrientedChain => "OrientedChainProgram"@,
            QueryProgram::Claw => "ClawProgram"@,
            QueryProgram::FactStar => "FactStarProgram"@,
            QueryProgram::Triangle => "CorpusTriangleProgram"@,
            QueryProgram::Cycle4 => "Cycle4Program"@,
            QueryProgram::Spade => "SpadeProgram"@,
            QueryProgram::Barbell => "BarbellProgram"@,
            QueryProgram::LoomisWhitney4 => "LoomisWhitney4Program"@,
            QueryProgram::RetailH03 => "RetailH03Program"@,
            QueryProgram::RetailH05 => "RetailH05Program"@,
            QueryProgram::RetailH07 => "RetailH07Program"@,
            QueryProgram::RetailH08 => "RetailH08Program"@,
            QueryProgram::RetailH09 => "RetailH09Program"@,
            QueryProgram::RetailH21Positive => "RetailH21PositiveProgram"@,
            QueryProgram::RetailD19 => "RetailD19Program"@,
            QueryProgram::RetailD27 => "RetailD27Program"@,
            QueryProgram::RetailD72Inner => "RetailD72InnerProgram"@,
            QueryProgram::RetailD85 => "RetailD85Program"@,
        }
    }

    /// The name of the program's public struct.
    pub fn struct_name(self) -> (r: &'static str)
        ensures
            r@ == self.struct_name_spec(),
    {
        match self {
            QueryProgram::Intersection => "UnaryIntersectionProgram",
            QueryProgram::CartesianProduct => "CartesianProgram",
            QueryProgram::OrientedChain => "OrientedChainProgram",
            QueryProgram::Claw => "ClawProgram",
            QueryProgram::FactStar => "FactStarProgram",
            QueryProgram::Triangle => "CorpusTriangleProgram",
            QueryProgram::Cycle4 => "Cycle4Program",
            QueryProgram::Spade => "SpadeProgram",
            QueryProgram::Barbell => "BarbellProgram",
            QueryProgram::LoomisWhitney4 => "LoomisWhitney4Program",
            QueryProgram::RetailH03 => "RetailH03Program",
            QueryProgram::RetailH05 => "RetailH05Program",
            QueryProgram::RetailH07 => "RetailH07Program",
            QueryProgram::RetailH08 => "RetailH08Program",
            QueryProgram::RetailH09 => "RetailH09Program",
            QueryProgram::RetailH21Positive => "RetailH21PositiveProgram",
            QueryProgram::RetailD19 => "RetailD19Program",
            QueryProgram::RetailD27 => "RetailD27Program",
            QueryProgram::RetailD72Inner => "RetailD72InnerProgram",
            QueryProgram::RetailD85 => "RetailD85Program",
        }
    }

    /// The typed query program: its declared inputs and its single rule.
    pub fn module(self) -> (r: CqModule)
        ensures
            module_view(r) == self.module_spec(),
    {
        match self {
            QueryProgram::Intersection => {
                let r = CqModule {
                    inputs: vec![input("Left", 1), input("Right", 1)],
                    head: atom("intersection", &["x"]),
                    body: vec![
                        atom("Left", &["x"]),
                        atom("Right", &["x"]),
                    ],
                };
                assert(module_view(r) =~~= self.module_spec());
                r
            },
            QueryProgram::CartesianProduct => {
                let r = CqModule {
                    inputs: vec![input("A", 1), input("B", 2)],
                    head: atom("product", &["x", "y", "z"]),
                    body: vec![
                        atom("A", &["x"]),
                        atom("B", &["y", "z"]),
                    ],
                };
                assert(module_view(r) =~~= self.module_spec());
                r
            },
            QueryProgram::OrientedChain => {
                let r = CqModule {
                    inputs: vec![input("Edge", 2)],
                    head: atom("chain", &["a", "d"]),
                    body: vec![
                        atom("Edge", &["a", "b"]),
                        atom("Edge", &["b", "c"]),
                        atom("Edge", &["d", "c"]),
                    ],
                };
                assert(module_view(r) =~~= self.module_spec());
                r
            },
            QueryProgram::Claw => {
                let r = CqModule {
                    inputs: vec![input("A", 2), input("B", 2), input("C", 2)],
                    head: atom("claw", &["center", "a", "b", "c"]),
                    body: vec![
                        atom("A", &["center", "a"]),
                        atom("B", &["center", "b"]),
                        atom("C", &["center", "c"]),
                    ],
                };
                assert(module_view(r) =~~= self.module_spec());
                r
            },
            QueryProgram::FactStar => {
                let r = CqModule {
                    inputs: vec![input("Fact", 3), input("DimA", 2), input("DimB", 2), input("DimC", 2)],
                    head: atom("fact_star", &["k1", "k2", "k3", "a", "b", "c"]),
                    body: vec![
                        atom("Fact", &["k1", "k2", "k3"]),
                        atom("DimA", &["k1", "a"]),
                        atom("DimB", &["k2", "b"]),
                        atom("DimC", &["k3", "c"]),
                    ],
                };
                assert(module_view(r) =~~= self.module_spec());
                r
            },
            QueryProgram::Triangle => {
                let r = CqModule {
                    inputs: vec![input("R", 2), input("S", 2), input("T", 2)],
                    head: atom("triangle", &["x", "y", "z"]),
                    body: vec![
                        atom("R", &["x", "y"]),
                        atom("S", &["y", "z"]),
                        atom("T", &["z", "x"]),
                    ],
                };
                assert(module_view(r) =~~= self.module_spec());
                r
            },
            QueryProgram::Cycle4 => {
                let r = CqModule {
                    inputs: vec![input("R", 2), input("S", 2), input("T", 2), input("U", 2)],
                    head: atom("cycle4", &["a", "b", "c", "d"]),
                    body: vec![
                        atom("R", &["a", "b"]),
                        atom("S", &["b", "c"]),
                        atom("T", &["c", "d"]),
                        atom("U", &["d", "a"]),
                    ],
                };
                assert(module_view(r) =~~= self.module_spec());
                r
            },
            QueryProgram::Spade => {
                let r = CqModule {
                    inputs: vec![input("R", 2), input("S", 2), input("T", 2), input("H", 2)],
                    head: atom("spade", &["x", "y", "z", "w"]),
                    body: vec![
                        atom("R", &["x", "y"]),
                        atom("S", &["y", "z"]),
                        atom("T", &["x", "z"]),
                        atom("H", &["x", "w"]),
                    ],
                };
                assert(module_view(r) =~~= self.module_spec());
                r
            },
            QueryProgram::Barbell => {
                let r = CqModule {
                    inputs: vec![input("R", 2), input("S", 2), input("T", 2), input("Bridge", 2), input("U", 2), input("V", 2), input("W", 2)],
                    head: atom("barbell", &["x", "y", "z", "u", "v", "w"]),
                    body: vec![
                        atom("R", &["x", "y"]),
                        atom("S", &["y", "z"]),
                        atom("T", &["x", "z"]),
                        atom("Bridge", &["x", "u"]),
                        atom("U", &["u", "v"]),
                        atom("V", &["v", "w"]),
                        atom("W", &["u", "w"]),
                    ],
                };
                assert(module_view(r) =~~= self.module_spec());
                r
            },
            QueryProgram::LoomisWhitney4 => {
                let r = CqModule {
                    inputs: vec![input("ABC", 3), input("BCD", 3), input("ACD", 3), input("ABD", 3)],
                    head: atom("lw4", &["a", "b", "c", "d"]),
                    body: vec![
                        atom("ABC", &["a", "b", "c"]),
                        atom("BCD", &["b", "c", "d"]),
                        atom("ACD", &["a", "c", "d"]),
                        atom("ABD", &["a", "b", "d"]),
                    ],
                };
                assert(module_view(r) =~~= self.module_spec());
                r
            },
            QueryProgram::RetailH03 => {
                let r = CqModule {
                    inputs: vec![input("RetailH03Customer", 2), input("RetailH03Orders", 2), input("RetailH03Lineitem", 4)],
                    head: atom("retail_h03_result", &["order_key", "customer_key"]),
                    body: vec![
                        atom("RetailH03Customer", &["customer_key", "_customer_nation"]),
                        atom("RetailH03Orders", &["order_key", "customer_key"]),
                        atom("RetailH03Lineitem", &["order_key", "_part_key", "_supplier_key", "_line_number"]),
                    ],
                };
                assert(module_view(r) =~~= self.module_spec());
                r
            },
            QueryProgram::RetailH05 => {
                let r = CqModule {
                    inputs: vec![input("RetailH05Customer", 2), input("RetailH05Orders", 2), input("RetailH05Lineitem", 4), input("RetailH05Supplier", 2), input("RetailH05Nation", 2), input("RetailH05Region", 1)],
                    head: atom("retail_h05_result", &["order_key", "supplier_key", "nation_key"]),
                    body: vec![
                        atom("RetailH05Customer", &["customer_key", "nation_key"]),
                        atom("RetailH05Orders", &["order_key", "customer_key"]),
                        atom("RetailH05Lineitem", &["order_key", "_part_key", "supplier_key", "_line_number"]),
                        atom("RetailH05Supplier", &["supplier_key", "nation_key"]),
                        atom("RetailH05Nation", &["nation_key", "region_key"]),
                        atom("RetailH05Region", &["region_key"]),
                    ],
                };
                assert(module_view(r) =~~= self.module_spec());
                r
            },
            QueryProgram::RetailH07 => {
                let r = CqModule {
                    inputs: vec![input("RetailH07Supplier", 2), input("RetailH07Lineitem", 4), input("RetailH07Orders", 2), input("RetailH07Customer", 2), input("RetailH07Nation", 2)],
                    head: atom("retail_h07_result", &["order_key", "supplier_nation", "customer_nation"]),
                    body: vec![
                        atom("RetailH07Supplier", &["supplier_key", "supplier_nation"]),
                        atom("RetailH07Lineitem", &["order_key", "_part_key", "supplier_key", "_line_number"]),
                        atom("RetailH07Orders", &["order_key", "customer_key"]),
                        atom("RetailH07Customer", &["customer_key", "customer_nation"]),
                        atom("RetailH07Nation", &["supplier_nation", "_supplier_region"]),
                        atom("RetailH07Nation", &["customer_nation", "_customer_region"]),
                    ],
                };
                assert(module_view(r) =~~= self.module_spec());
                r
            },
            QueryProgram::RetailH08 => {
                let r = CqModule {
                    inputs: vec![input("RetailH08Lineitem", 4), input("RetailH08Part", 1), input("RetailH08Supplier", 2), input("RetailH08Orders", 2), input("RetailH08Customer", 2), input("RetailH08Nation", 2), input("RetailH08Region", 1)],
                    head: atom("retail_h08_result", &["order_key", "part_key", "supplier_key"]),
                    body: vec![
                        atom("RetailH08Lineitem", &["order_key", "part_key", "supplier_key", "_line_number"]),
                        atom("RetailH08Part", &["part_key"]),
                        atom("RetailH08Supplier", &["supplier_key", "supplier_nation"]),
                        atom("RetailH08Orders", &["order_key", "customer_key"]),
                        atom("RetailH08Customer", &["customer_key", "customer_nation"]),
                        atom("RetailH08Nation", &["customer_nation", "customer_region"]),
                        atom("RetailH08Region", &["customer_region"]),
                        atom("RetailH08Nation", &["supplier_nation", "_supplier_region"]),
                    ],
                };
                assert(module_view(r) =~~= self.module_spec());
                r
            },
            QueryProgram::RetailH09 => {
                let r = CqModule {
                    inputs: vec![input("RetailH09Lineitem", 4), input("RetailH09PartSupp", 2), input("RetailH09Part", 1), input("RetailH09Supplier", 2), input("RetailH09Orders", 2), input("RetailH09Nation", 2)],
                    head: atom("retail_h09_result", &["order_key", "part_key", "supplier_key"]),
                    body: vec![
                        atom("RetailH09Lineitem", &["order_key", "part_key", "supplier_key", "_line_number"]),
                        atom("RetailH09PartSupp", &["part_key", "supplier_key"]),
                        atom("RetailH09Part", &["part_key"]),
                        atom("RetailH09Supplier", &["supplier_key", "nation_key"]),
                        atom("RetailH09Orders", &["order_key", "_customer_key"]),
                        atom("RetailH09Nation", &["nation_key", "_region_key"]),
                    ],
                };
                assert(module_view(r) =~~= self.module_spec());
                r
            },
            QueryProgram::RetailH21Positive => {
                let r = CqModule {
                    inputs: vec![input("RetailH21PositiveSupplier", 2), input("RetailH21PositiveLineitem", 4), input("RetailH21PositiveOrders", 2), input("RetailH21PositiveNation", 2)],
                    head: atom("retail_h21_positive_result", &["order_key", "waiting_supplier", "other_supplier"]),
                    body: vec![
                        atom("RetailH21PositiveSupplier", &["waiting_supplier", "nation_key"]),
                        atom("RetailH21PositiveLineitem", &["order_key", "_waiting_part", "waiting_supplier", "_waiting_line"]),
                        atom("RetailH21PositiveOrders", &["order_key", "_customer_key"]),
                        atom("RetailH21PositiveNation", &["nation_key", "_region_key"]),
                        atom("RetailH21PositiveLineitem", &["order_key", "_other_part", "other_supplier", "_other_line"]),
                    ],
                };
                assert(module_view(r) =~~= self.module_spec());
                r
            },
            QueryProgram::RetailD19 => {
                let r = CqModule {
                    inputs: vec![input("RetailD19StoreSales", 5), input("RetailD19DateDim", 1), input("RetailD19Item", 1), input("RetailD19Customer", 2), input("RetailD19CustomerAddress", 1), input("RetailD19Store", 1)],
                    head: atom("retail_d19_result", &["ticket_number", "item_key", "customer_key", "store_key"]),
                    body: vec![
                        atom("RetailD19StoreSales", &["ticket_number", "sold_date", "item_key", "customer_key", "store_key"]),
                        atom("RetailD19DateDim", &["sold_date"]),
                        atom("RetailD19Item", &["item_key"]),
                        atom("RetailD19Customer", &["customer_key", "address_key"]),
                        atom("RetailD19CustomerAddress", &["address_key"]),
                        atom("RetailD19Store", &["store_key"]),
                    ],
                };
                assert(module_view(r) =~~= self.module_spec());
                r
            },
            QueryProgram::RetailD27 => {
                let r = CqModule {
                    inputs: vec![input("RetailD27StoreSales", 5), input("RetailD27DateDim", 1), input("RetailD27Item", 1), input("RetailD27Store", 1), input("RetailD27CustomerDemo", 1)],
                    head: atom("retail_d27_result", &["ticket_number", "item_key", "store_key"]),
                    body: vec![
                        atom("RetailD27StoreSales", &["ticket_number", "sold_date", "item_key", "store_key", "customer_demo"]),
                        atom("RetailD27DateDim", &["sold_date"]),
                        atom("RetailD27Item", &["item_key"]),
                        atom("RetailD27Store", &["store_key"]),
                        atom("RetailD27CustomerDemo", &["customer_demo"]),
                    ],
                };
                assert(module_view(r) =~~= self.module_spec());
                r
            },
            QueryProgram::RetailD72Inner => {
                let r = CqModule {
                    inputs: vec![input("RetailD72InnerCatalogSales", 6), input("RetailD72InnerDateDim", 2), input("RetailD72InnerInventory", 3), input("RetailD72InnerWarehouse", 1), input("RetailD72InnerItem", 1), input("RetailD72InnerCustomerDemo", 1), input("RetailD72InnerHouseholdDemo", 1)],
                    head: atom("retail_d72_inner_result", &["order_number", "item_key", "warehouse_key", "week_sequence"]),
                    body: vec![
                        atom("RetailD72InnerCatalogSales", &["order_number", "item_key", "customer_demo", "household_demo", "sold_date", "ship_date"]),
                        atom("RetailD72InnerDateDim", &["sold_date", "week_sequence"]),
                        atom("RetailD72InnerInventory", &["item_key", "inventory_date", "warehouse_key"]),
                        atom("RetailD72InnerDateDim", &["inventory_date", "week_sequence"]),
                        atom("RetailD72InnerWarehouse", &["warehouse_key"]),
                        atom("RetailD72InnerItem", &["item_key"]),
                        atom("RetailD72InnerCustomerDemo", &["customer_demo"]),
                        atom("RetailD72InnerHouseholdDemo", &["household_demo"]),
                        atom("RetailD72InnerDateDim", &["ship_date", "_ship_week_sequence"]),
                    ],
                };
                assert(module_view(r) =~~= self.module_spec());
                r
            },
            QueryProgram::RetailD85 => {
                let r = CqModule {
                    inputs: vec![input("RetailD85WebSales", 4), input("RetailD85WebReturns", 6), input("RetailD85WebPage", 1), input("RetailD85CustomerDemo", 1), input("RetailD85CustomerAddress", 1), input("RetailD85DateDim", 1), input("RetailD85Reason", 1)],
                    head: atom("retail_d85_result", &["order_number", "item_key", "reason_key"]),
                    body: vec![
                        atom("RetailD85WebSales", &["order_number", "item_key", "web_page", "sold_date"]),
                        atom("RetailD85WebReturns", &["order_number", "item_key", "refunded_demo", "returning_demo", "address_key", "reason_key"]),
                        atom("RetailD85WebPage", &["web_page"]),
                        atom("RetailD85CustomerDemo", &["refunded_demo"]),
                        atom("RetailD85CustomerDemo", &["returning_demo"]),
                        atom("RetailD85CustomerAddress", &["address_key"]),
                        atom("RetailD85DateDim", &["sold_date"]),
                        atom("RetailD85Reason", &["reason_key"]),
                    ],
                };
                assert(module_view(r) =~~= self.module_spec());
                r
            },
        }
    }

    /// The declared inputs, head, and body of the program.
    pub open spec fn module_spec(self) -> ModuleView {
        match self {
            QueryProgram::Intersection => ModuleView {
                inputs: seq![("Left"@, 1nat), ("Right"@, 1nat)],
                head: ("intersection"@, seq!["x"@]),
                body: seq![
                    ("Left"@, seq!["x"@]),
                    ("Right"@, seq!["x"@]),
                ],
            },
            QueryProgram::CartesianProduct => ModuleView {
                inputs: seq![("A"@, 1nat), ("B"@, 2nat)],
                head: ("product"@, seq!["x"@, "y"@, "z"@]),
                body: seq![
                    ("A"@, seq!["x"@]),
                    ("B"@, seq!["y"@, "z"@]),
                ],
            },
            QueryProgram::OrientedChain => ModuleView {
                inputs: seq![("Edge"@, 2nat)],
                head: ("chain"@, seq!["a"@, "d"@]),
                body: seq![
                    ("Edge"@, seq!["a"@, "b"@]),
                    ("Edge"@, seq!["b"@, "c"@]),
                    ("Edge"@, seq!["d"@, "c"@]),
                ],
            },
            QueryProgram::Claw => ModuleView {
                inputs: seq![("A"@, 2nat), ("B"@, 2nat), ("C"@, 2nat)],
                head: ("claw"@, seq!["center"@, "a"@, "b"@, "c"@]),
                body: seq![
                    ("A"@, seq!["center"@, "a"@]),
                    ("B"@, seq!["center"@, "b"@]),
                    ("C"@, seq!["center"@, "c"@]),
                ],
            },
            QueryProgram::FactStar => ModuleView {
                inputs: seq![("Fact"@, 3nat), ("DimA"@, 2nat), ("DimB"@, 2nat), ("DimC"@, 2nat)],
                head: ("fact_star"@, seq!["k1"@, "k2"@, "k3"@, "a"@, "b"@, "c"@]),
                body: seq![
                    ("Fact"@, seq!["k1"@, "k2"@, "k3"@]),
                    ("DimA"@, seq!["k1"@, "a"@]),
                    ("DimB"@, seq!["k2"@, "b"@]),
                    ("DimC"@, seq!["k3"@, "c"@]),
                ],
            },
            QueryProgram::Triangle => ModuleView {
                inputs: seq![("R"@, 2nat), ("S"@, 2nat), ("T"@, 2nat)],
                head: ("triangle"@, seq!["x"@, "y"@, "z"@]),
                body: seq![
                    ("R"@, seq!["x"@, "y"@]),
                    ("S"@, seq!["y"@, "z"@]),
                    ("T"@, seq!["z"@, "x"@]),
                ],
            },
            QueryProgram::Cycle4 => ModuleView {
                inputs: seq![("R"@, 2nat), ("S"@, 2nat), ("T"@, 2nat), ("U"@, 2nat)],
                head: ("cycle4"@, seq!["a"@, "b"@, "c"@, "d"@]),
                body: seq![
                    ("R"@, seq!["a"@, "b"@]),
                    ("S"@, seq!["b"@, "c"@]),
                    ("T"@, seq!["c"@, "d"@]),
                    ("U"@, seq!["d"@, "a"@]),
                ],
            },
            QueryProgram::Spade => ModuleView {
                inputs: seq![("R"@, 2nat), ("S"@, 2nat), ("T"@, 2nat), ("H"@, 2nat)],
                head: ("spade"@, seq!["x"@, "y"@, "z"@, "w"@]),
                body: seq![
                    ("R"@, seq!["x"@, "y"@]),
                    ("S"@, seq!["y"@, "z"@]),
                    ("T"@, seq!["x"@, "z"@]),
                    ("H"@, seq!["x"@, "w"@]),
                ],
            },
            QueryProgram::Barbell => ModuleView {
                inputs: seq![("R"@, 2nat), ("S"@, 2nat), ("T"@, 2nat), ("Bridge"@, 2nat), ("U"@, 2nat), ("V"@, 2nat), ("W"@, 2nat)],
                head: ("barbell"@, seq!["x"@, "y"@, "z"@, "u"@, "v"@, "w"@]),
                body: seq![
                    ("R"@, seq!["x"@, "y"@]),
                    ("S"@, seq!["y"@, "z"@]),
                    ("T"@, seq!["x"@, "z"@]),
                    ("Bridge"@, seq!["x"@, "u"@]),
                    ("U"@, seq!["u"@, "v"@]),
                    ("V"@, seq!["v"@, "w"@]),
                    ("W"@, seq!["u"@, "w"@]),
                ],
            },
            QueryProgram::LoomisWhitney4 => ModuleView {
                inputs: seq![("ABC"@, 3nat), ("BCD"@, 3nat), ("ACD"@, 3nat), ("ABD"@, 3nat)],
                head: ("lw4"@, seq!["a"@, "b"@, "c"@, "d"@]),
                body: seq![
                    ("ABC"@, seq!["a"@, "b"@, "c"@]),
                    ("BCD"@, seq!["b"@, "c"@, "d"@]),
                    ("ACD"@, seq!["a"@, "c"@, "d"@]),
                    ("ABD"@, seq!["a"@, "b"@, "d"@]),
                ],
            },
            QueryProgram::RetailH03 => ModuleView {
                inputs: seq![("RetailH03Customer"@, 2nat), ("RetailH03Orders"@, 2nat), ("RetailH03Lineitem"@, 4nat)],
                head: ("retail_h03_result"@, seq!["order_key"@, "customer_key"@]),
                body: seq![
                    ("RetailH03Customer"@, seq!["customer_key"@, "_customer_nation"@]),
                    ("RetailH03Orders"@, seq!["order_key"@, "customer_key"@]),
                    ("RetailH03Lineitem"@, seq!["order_key"@, "_part_key"@, "_supplier_key"@, "_line_number"@]),
                ],
            },
            QueryProgram::RetailH05 => ModuleView {
                inputs: seq![("RetailH05Customer"@, 2nat), ("RetailH05Orders"@, 2nat), ("RetailH05Lineitem"@, 4nat), ("RetailH05Supplier"@, 2nat), ("RetailH05Nation"@, 2nat), ("RetailH05Region"@, 1nat)],
                head: ("retail_h05_result"@, seq!["order_key"@, "supplier_key"@, "nation_key"@]),
                body: seq![
                    ("RetailH05Customer"@, seq!["customer_key"@, "nation_key"@]),
                    ("RetailH05Orders"@, seq!["order_key"@, "customer_key"@]),
                    ("RetailH05Lineitem"@, seq!["order_key"@, "_part_key"@, "supplier_key"@, "_line_number"@]),
                    ("RetailH05Supplier"@, seq!["supplier_key"@, "nation_key"@]),
                    ("RetailH05Nation"@, seq!["nation_key"@, "region_key"@]),
                    ("RetailH05Region"@, seq!["region_key"@]),
                ],
            },
            QueryProgram::RetailH07 => ModuleView {
                inputs: seq![("RetailH07Supplier"@, 2nat), ("RetailH07Lineitem"@, 4nat), ("RetailH07Orders"@, 2nat), ("RetailH07Customer"@, 2nat), ("RetailH07Nation"@, 2nat)],
                head: ("retail_h07_result"@, seq!["order_key"@, "supplier_nation"@, "customer_nation"@]),
                body: seq![
                    ("RetailH07Supplier"@, seq!["supplier_key"@, "supplier_nation"@]),
                    ("RetailH07Lineitem"@, seq!["order_key"@, "_part_key"@, "supplier_key"@, "_line_number"@]),
                    ("RetailH07Orders"@, seq!["order_key"@, "customer_key"@]),
                    ("RetailH07Customer"@, seq!["customer_key"@, "customer_nation"@]),
                    ("RetailH07Nation"@, seq!["supplier_nation"@, "_supplier_region"@]),
                    ("RetailH07Nation"@, seq!["customer_nation"@, "_customer_region"@]),
                ],
            },
            QueryProgram::RetailH08 => ModuleView {
                inputs: seq![("RetailH08Lineitem"@, 4nat), ("RetailH08Part"@, 1nat), ("RetailH08Supplier"@, 2nat), ("RetailH08Orders"@, 2nat), ("RetailH08Customer"@, 2nat), ("RetailH08Nation"@, 2nat), ("RetailH08Region"@, 1nat)],
                head: ("retail_h08_result"@, seq!["order_key"@, "part_key"@, "supplier_key"@]),
                body: seq![
                    ("RetailH08Lineitem"@, seq!["order_key"@, "part_key"@, "supplier_key"@, "_line_number"@]),
                    ("RetailH08Part"@, seq!["part_key"@]),
                    ("RetailH08Supplier"@, seq!["supplier_key"@, "supplier_nation"@]),
                    ("RetailH08Orders"@, seq!["order_key"@, "customer_key"@]),
                    ("RetailH08Customer"@, seq!["customer_key"@, "customer_nation"@]),
                    ("RetailH08Nation"@, seq!["customer_nation"@, "customer_region"@]),
                    ("RetailH08Region"@, seq!["customer_region"@]),
                    ("RetailH08Nation"@, seq!["supplier_nation"@, "_supplier_region"@]),
                ],
            },
            QueryProgram::RetailH09 => ModuleView {
                inputs: seq![("RetailH09Lineitem"@, 4nat), ("RetailH09PartSupp"@, 2nat), ("RetailH09Part"@, 1nat), ("RetailH09Supplier"@, 2nat), ("RetailH09Orders"@, 2nat), ("RetailH09Nation"@, 2nat)],
                head: ("retail_h09_result"@, seq!["order_key"@, "part_key"@, "supplier_key"@]),
                body: seq![
                    ("RetailH09Lineitem"@, seq!["order_key"@, "part_key"@, "supplier_key"@, "_line_number"@]),
                    ("RetailH09PartSupp"@, seq!["part_key"@, "supplier_key"@]),
                    ("RetailH09Part"@, seq!["part_key"@]),
                    ("RetailH09Supplier"@, seq!["supplier_key"@, "nation_key"@]),
                    ("RetailH09Orders"@, seq!["order_key"@, "_customer_key"@]),
                    ("RetailH09Nation"@, seq!["nation_key"@, "_region_key"@]),
                ],
            },
            QueryProgram::RetailH21Positive => ModuleView {
                inputs: seq![("RetailH21PositiveSupplier"@, 2nat), ("RetailH21PositiveLineitem"@, 4nat), ("RetailH21PositiveOrders"@, 2nat), ("RetailH21PositiveNation"@, 2nat)],
                head: ("retail_h21_positive_result"@, seq!["order_key"@, "waiting_supplier"@, "other_supplier"@]),
                body: seq![
                    ("RetailH21PositiveSupplier"@, seq!["waiting_supplier"@, "nation_key"@]),
                    ("RetailH21PositiveLineitem"@, seq!["order_key"@, "_waiting_part"@, "waiting_supplier"@, "_waiting_line"@]),
                    ("RetailH21PositiveOrders"@, seq!["order_key"@, "_customer_key"@]),
                    ("RetailH21PositiveNation"@, seq!["nation_key"@, "_region_key"@]),
                    ("RetailH21PositiveLineitem"@, seq!["order_key"@, "_other_part"@, "other_supplier"@, "_other_line"@]),
                ],
            },
            QueryProgram::RetailD19 => ModuleView {
                inputs: seq![("RetailD19StoreSales"@, 5nat), ("RetailD19DateDim"@, 1nat), ("RetailD19Item"@, 1nat), ("RetailD19Customer"@, 2nat), ("RetailD19CustomerAddress"@, 1nat), ("RetailD19Store"@, 1nat)],
                head: ("retail_d19_result"@, seq!["ticket_number"@, "item_key"@, "customer_key"@, "store_key"@]),
                body: seq![
                    ("RetailD19StoreSales"@, seq!["ticket_number"@, "sold_date"@, "item_key"@, "customer_key"@, "store_key"@]),
                    ("RetailD19DateDim"@, seq!["sold_date"@]),
                    ("RetailD19Item"@, seq!["item_key"@]),
                    ("RetailD19Customer"@, seq!["customer_key"@, "address_key"@]),
                    ("RetailD19CustomerAddress"@, seq!["address_key"@]),
                    ("RetailD19Store"@, seq!["store_key"@]),
                ],
            },
            QueryProgram::RetailD27 => ModuleView {
                inputs: seq![("RetailD27StoreSales"@, 5nat), ("RetailD27DateDim"@, 1nat), ("RetailD27Item"@, 1nat), ("RetailD27Store"@, 1nat), ("RetailD27CustomerDemo"@, 1nat)],
                head: ("retail_d27_result"@, seq!["ticket_number"@, "item_key"@, "store_key"@]),
                body: seq![
                    ("RetailD27StoreSales"@, seq!["ticket_number"@, "sold_date"@, "item_key"@, "store_key"@, "customer_demo"@]),
                    ("RetailD27DateDim"@, seq!["sold_date"@]),
                    ("RetailD27Item"@, seq!["item_key"@]),
                    ("RetailD27Store"@, seq!["store_key"@]),
                    ("RetailD27CustomerDemo"@, seq!["customer_demo"@]),
                ],
            },
            QueryProgram::RetailD72Inner => ModuleView {
                inputs: seq![("RetailD72InnerCatalogSales"@, 6nat), ("RetailD72InnerDateDim"@, 2nat), ("RetailD72InnerInventory"@, 3nat), ("RetailD72InnerWarehouse"@, 1nat), ("RetailD72InnerItem"@, 1nat), ("RetailD72InnerCustomerDemo"@, 1nat), ("RetailD72InnerHouseholdDemo"@, 1nat)],
                head: ("retail_d72_inner_result"@, seq!["order_number"@, "item_key"@, "warehouse_key"@, "week_sequence"@]),
                body: seq![
                    ("RetailD72InnerCatalogSales"@, seq!["order_number"@, "item_key"@, "customer_demo"@, "household_demo"@, "sold_date"@, "ship_date"@]),
                    ("RetailD72InnerDateDim"@, seq!["sold_date"@, "week_sequence"@]),
                    ("RetailD72InnerInventory"@, seq!["item_key"@, "inventory_date"@, "warehouse_key"@]),
                    ("RetailD72InnerDateDim"@, seq!["inventory_date"@, "week_sequence"@]),
                    ("RetailD72InnerWarehouse"@, seq!["warehouse_key"@]),
                    ("RetailD72InnerItem"@, seq!["item_key"@]),
                    ("RetailD72InnerCustomerDemo"@, seq!["customer_demo"@]),
                    ("RetailD72InnerHouseholdDemo"@, seq!["household_demo"@]),
                    ("RetailD72InnerDateDim"@, seq!["ship_date"@, "_ship_week_sequence"@]),
                ],
            },
            QueryProgram::RetailD85 => ModuleView {
                inputs: seq![("RetailD85WebSales"@, 4nat), ("RetailD85WebReturns"@, 6nat), ("RetailD85WebPage"@, 1nat), ("RetailD85CustomerDemo"@, 1nat), ("RetailD85CustomerAddress"@, 1nat), ("RetailD85DateDim"@, 1nat), ("RetailD85Reason"@, 1nat)],
                head: ("retail_d85_result"@, seq!["order_number"@, "item_key"@, "reason_key"@]),
                body: seq![
                    ("RetailD85WebSales"@, seq!["order_number"@, "item_key"@, "web_page"@, "sold_date"@]),
                    ("RetailD85WebReturns"@, seq!["order_number"@, "item_key"@, "refunded_demo"@, "returning_demo"@, "address_key"@, "reason_key"@]),
                    ("RetailD85WebPage"@, seq!["web_page"@]),
                    ("RetailD85CustomerDemo"@, seq!["refunded_demo"@]),
                    ("RetailD85CustomerDemo"@, seq!["returning_demo"@]),
                    ("RetailD85CustomerAddress"@, seq!["address_key"@]),
                    ("RetailD85DateDim"@, seq!["sold_date"@]),
                    ("RetailD85Reason"@, seq!["reason_key"@]),
                ],
            },
        }
    }
}

/// The scope note of entry `k` of the combined catalog.
pub open spec fn catalog_scope_note(k: int) -> Seq<char> {
    if k < 10 {
        if k == 7 { SPADE_SCOPE@ } else { COLORED_CQ_SCOPE@ }
    } else {
        retail_scope_notes()[k - 10]
    }
}

/// `c` is entry `k` of the combined catalog, classic cases first: its name,
/// suite, source path, purpose, scope note and program.
pub open spec fn catalog_entry(c: QueryCase, k: int) -> bool {
    &&& 0 <= k < crate::all_names().len()
    &&& c.name@ == crate::all_names()[k]
    &&& c.suite == (if k < 10 { Suite::Classic } else { Suite::Retail })
    &&& c.rust_path@ == source_path(c.suite, c.name@)
    &&& c.purpose@ == (classic_purposes() + retail_purposes())[k]
    &&& c.scope_note@ == catalog_scope_note(k)
    &&& c.program == (classic_programs() + retail_programs())[k]
}

/// Both catalogs in their documented order.
pub fn all() -> (r: Vec<QueryCase>)
    ensures
        case_names(r@) == crate::all_names(),
        case_programs(r@) == classic_programs() + retail_programs(),
        case_purposes(r@) == classic_purposes() + retail_purposes(),
        forall|k: int| 0 <= k < r@.len() ==> (#[trigger] r@[k]).suite == (if k < 10 { Suite::Classic } else { Suite::Retail }),
        forall|k: int| 0 <= k < r@.len() ==> catalog_entry(#[trigger] r@[k], k),
{
    let mut cases = classic();
    let mut rest = retail();
    let ghost first = cases@;
    let ghost second = rest@;
    cases.append(&mut rest);
    assert(cases@ == first + second);
    assert(case_names(cases@) =~= case_names(first) + case_names(second));
    assert(case_purposes(cases@) =~= case_purposes(first) + case_purposes(second));
    assert(case_programs(cases@) =~= case_programs(first) + case_programs(second));
    assert(first.len() == 10) by {
        assert(case_names(first).len() == 10);
    }
    assert(second.len() == 10) by {
        assert(case_names(second).len() == 10);
    }
    assert forall|k: int| 0 <= k < cases@.len() implies catalog_entry(#[trigger] cases@[k], k) by {
        assert(case_names(cases@)[k] == cases@[k].name@);
        assert(case_programs(cases@)[k] == cases@[k].program);
        assert(case_purposes(cases@)[k] == cases@[k].purpose@);
        if k >= 10 {
            assert(cases@[k] == second[k - 10]);
            assert(case_scope_notes(second)[k - 10] == second[k - 10].scope_note@);
        } else {
            assert(cases@[k] == first[k]);
        }
    }
    cases
}

/// Return one complete suite.
pub fn named(name: &str) -> (r: Option<Vec<QueryCase>>)
    ensures
        name@ == "classic"@ ==> (r matches Some(v) && case_names(v@) == classic_names() && case_programs(v@) == classic_programs()
            && case_purposes(v@) == classic_purposes() && all_in_suite(v@, Suite::Classic)
            && forall|k: int| 0 <= k < v@.len() ==> catalog_entry(#[trigger] v@[k], k)),
        name@ == "retail"@ ==> (r matches Some(v) && case_names(v@) == retail_names() && case_programs(v@) == retail_programs()
            && case_purposes(v@) == retail_purposes() && all_in_suite(v@, Suite::Retail)
            && forall|k: int| 0 <= k < v@.len() ==> catalog_entry(#[trigger] v@[k], k + 10)),
        name@ != "classic"@ && name@ != "retail"@ ==> r is None,
{
    proof {
        reveal_strlit("classic");
        reveal_strlit("retail");
        assert("classic"@[0] != "retail"@[0]);
    }
    if crate::text::str_equal(name, "classic") {
        let v = classic();
        assert forall|k: int| 0 <= k < v@.len() implies catalog_entry(#[trigger] v@[k], k) by {
            assert(case_names(v@)[k] == v@[k].name@);
            assert(case_programs(v@)[k] == v@[k].program);
            assert(case_purposes(v@)[k] == v@[k].purpose@);
            assert(case_names(v@).len() == 10);
        }
        Some(v)
    } else if crate::text::str_equal(name, "retail") {
        let v = retail();
        assert forall|k: int| 0 <= k < v@.len() implies catalog_entry(#[trigger] v@[k], k + 10) by {
            assert(case_names(v@)[k] == v@[k].name@);
            assert(case_programs(v@)[k] == v@[k].program);
            assert(case_purposes(v@)[k] == v@[k].purpose@);
            assert(case_scope_notes(v@)[k] == v@[k].scope_note@);
            assert(case_names(v@).len() == 10);
            assert(classic_names().len() == 10);
        }
        Some(v)
    } else {
        None
    }
}

} // verus!
