//! The catalog programs against their query text: the relation
//! declarations and the rule as the query language writes them.

use vstd::prelude::*;

use crate::catalog::ModuleView;
use crate::explain::{atom_text, column_declarations, relation_line};
use crate::sql::join_sep;
use crate::text::{dec_nat, digit_char};
use crate::QueryProgram;

verus! {

/// The rule of a query on one line: `head :- atom, atom, ..`.
pub open spec fn rule_text(m: ModuleView) -> Seq<char> {
    atom_text(m.head) + " :- "@ + join_sep(m.body.map_values(|a: (Seq<char>, Seq<Seq<char>>)| atom_text(a)), ", "@)
        + "."@
}

/// The rule of each catalog program in query notation, on one line.
pub open spec fn written_rule(program: QueryProgram) -> Seq<char> {
    match program {
        QueryProgram::Intersection => "intersection(x) :- Left(x), Right(x)."@,
        QueryProgram::CartesianProduct => "product(x, y, z) :- A(x), B(y, z)."@,
        QueryProgram::OrientedChain => "chain(a, d) :- Edge(a, b), Edge(b, c), Edge(d, c)."@,
        QueryProgram::Claw => "claw(center, a, b, c) :- A(center, a), B(center, b), C(center, c)."@,
        QueryProgram::FactStar => "fact_star(k1, k2, k3, a, b, c) :- Fact(k1, k2, k3), DimA(k1, a), DimB(k2, b), DimC(k3, c)."@,
        QueryProgram::Triangle => "triangle(x, y, z) :- R(x, y), S(y, z), T(z, x)."@,
        QueryProgram::Cycle4 => "cycle4(a, b, c, d) :- R(a, b), S(b, c), T(c, d), U(d, a)."@,
        QueryProgram::Spade => "spade(x, y, z, w) :- R(x, y), S(y, z), T(x, z), H(x, w)."@,
        QueryProgram::Barbell => "barbell(x, y, z, u, v, w) :- R(x, y), S(y, z), T(x, z), Bridge(x, u), U(u, v), V(v, w), W(u, w)."@,
        QueryProgram::LoomisWhitney4 => "lw4(a, b, c, d) :- ABC(a, b, c), BCD(b, c, d), ACD(a, c, d), ABD(a, b, d)."@,
        QueryProgram::RetailH03 => "retail_h03_result(order_key, customer_key) :- RetailH03Customer(customer_key, _customer_nation), RetailH03Orders(order_key, customer_key), RetailH03Lineitem(order_key, _part_key, _supplier_key, _line_number)."@,
        QueryProgram::RetailH05 => "retail_h05_result(order_key, supplier_key, nation_key) :- RetailH05Customer(customer_key, nation_key), RetailH05Orders(order_key, customer_key), RetailH05Lineitem(order_key, _part_key, supplier_key, _line_number), RetailH05Supplier(supplier_key, nation_key), RetailH05Nation(nation_key, region_key), RetailH05Region(region_key)."@,
        QueryProgram::RetailH07 => "retail_h07_result(order_key, supplier_nation, customer_nation) :- RetailH07Supplier(supplier_key, supplier_nation), RetailH07Lineitem(order_key, _part_key, supplier_key, _line_number), RetailH07Orders(order_key, customer_key), RetailH07Customer(customer_key, customer_nation), RetailH07Nation(supplier_nation, _supplier_region), RetailH07Nation(customer_nation, _customer_region)."@,
        QueryProgram::RetailH08 => "retail_h08_result(order_key, part_key, supplier_key) :- RetailH08Lineitem(order_key, part_key, supplier_key, _line_number), RetailH08Part(part_key), RetailH08Supplier(supplier_key, supplier_nation), RetailH08Orders(order_key, customer_key), RetailH08Customer(customer_key, customer_nation), RetailH08Nation(customer_nation, customer_region), RetailH08Region(customer_region), RetailH08Nation(supplier_nation, _supplier_region)."@,
        QueryProgram::RetailH09 => "retail_h09_result(order_key, part_key, supplier_key) :- RetailH09Lineitem(order_key, part_key, supplier_key, _line_number), RetailH09PartSupp(part_key, supplier_key), RetailH09Part(part_key), RetailH09Supplier(supplier_key, nation_key), RetailH09Orders(order_key, _customer_key), RetailH09Nation(nation_key, _region_key)."@,
        QueryProgram::RetailH21Positive => "retail_h21_positive_result(order_key, waiting_supplier, other_supplier) :- RetailH21PositiveSupplier(waiting_supplier, nation_key), RetailH21PositiveLineitem(order_key, _waiting_part, waiting_supplier, _waiting_line), RetailH21PositiveOrders(order_key, _customer_key), RetailH21PositiveNation(nation_key, _region_key), RetailH21PositiveLineitem(order_key, _other_part, other_supplier, _other_line)."@,
        QueryProgram::RetailD19 => "retail_d19_result(ticket_number, item_key, customer_key, store_key) :- RetailD19StoreSales(ticket_number, sold_date, item_key, customer_key, store_key), RetailD19DateDim(sold_date), RetailD19Item(item_key), RetailD19Customer(customer_key, address_key), RetailD19CustomerAddress(address_key), RetailD19Store(store_key)."@,
        QueryProgram::RetailD27 => "retail_d27_result(ticket_number, item_key, store_key) :- RetailD27StoreSales(ticket_number, sold_date, item_key, store_key, customer_demo), RetailD27DateDim(sold_date), RetailD27Item(item_key), RetailD27Store(store_key), RetailD27CustomerDemo(customer_demo)."@,
        QueryProgram::RetailD72Inner => "retail_d72_inner_result(order_number, item_key, warehouse_key, week_sequence) :- RetailD72InnerCatalogSales(order_number, item_key, customer_demo, household_demo, sold_date, ship_date), RetailD72InnerDateDim(sold_date, week_sequence), RetailD72InnerInventory(item_key, inventory_date, warehouse_key), RetailD72InnerDateDim(inventory_date, week_sequence), RetailD72InnerWarehouse(warehouse_key), RetailD72InnerItem(item_key), RetailD72InnerCustomerDemo(customer_demo), RetailD72InnerHouseholdDemo(household_demo), RetailD72InnerDateDim(ship_date, _ship_week_sequence)."@,
        QueryProgram::RetailD85 => "retail_d85_result(order_number, item_key, reason_key) :- RetailD85WebSales(order_number, item_key, web_page, sold_date), RetailD85WebReturns(order_number, item_key, refunded_demo, returning_demo, address_key, reason_key), RetailD85WebPage(web_page), RetailD85CustomerDemo(refunded_demo), RetailD85CustomerDemo(returning_demo), RetailD85CustomerAddress(address_key), RetailD85DateDim(sold_date), RetailD85Reason(reason_key)."@,
    }
}

/// The atoms of the Intersection program, each in query notation.
#[verifier::rlimit(60)]
#[verifier::spinoff_prover]
proof fn lemma_atoms_intersection()
    ensures
        atom_text(QueryProgram::Intersection.module_spec().head) == "intersection(x)"@,
        QueryProgram::Intersection.module_spec().body.map_values(|a: (Seq<char>, Seq<Seq<char>>)| atom_text(a))
            == seq!["Left(x)"@, "Right(x)"@],
{
    let m = QueryProgram::Intersection.module_spec();
    assert(atom_text(m.head) =~= "intersection(x)"@) by {
        reveal_strlit("(");
        reveal_strlit(")");
        reveal_strlit(", ");
        reveal_strlit("intersection");
        reveal_strlit("x");
        reveal_strlit("intersection(x)");
        reveal_with_fuel(join_sep, 2);
    }
    assert(atom_text(m.body[0]) =~= "Left(x)"@) by {
        reveal_strlit("(");
        reveal_strlit(")");
        reveal_strlit(", ");
        reveal_strlit("Left");
        reveal_strlit("x");
        reveal_strlit("Left(x)");
        reveal_with_fuel(join_sep, 2);
    }
    assert(atom_text(m.body[1]) =~= "Right(x)"@) by {
        reveal_strlit("(");
        reveal_strlit(")");
        reveal_strlit(", ");
        reveal_strlit("Right");
        reveal_strlit("x");
        reveal_strlit("Right(x)");
        reveal_with_fuel(join_sep, 2);
    }
    let texts = seq!["Left(x)"@, "Right(x)"@];
    assert(m.body.map_values(|a: (Seq<char>, Seq<Seq<char>>)| atom_text(a)) =~= texts);
}

/// The atoms of the Intersection program joined by commas.
#[verifier::rlimit(60)]
#[verifier::spinoff_prover]
proof fn lemma_joined_intersection()
    ensures
        join_sep(seq!["Left(x)"@, "Right(x)"@], ", "@) == "Left(x), Right(x)"@,
{
    let texts = seq!["Left(x)"@, "Right(x)"@];
    assert(join_sep(texts.take(1), ", "@) == "Left(x)"@);
    assert(join_sep(texts.take(2), ", "@) =~= "Left(x), Right(x)"@) by {
        assert(texts.take(2).drop_last() =~= texts.take(1));
        reveal_strlit(", ");
        reveal_strlit("Left(x)");
        reveal_strlit("Right(x)");
        reveal_strlit("Left(x), Right(x)");
    }
    assert(texts.take(2) =~= texts);
}

/// The rule of the Intersection program is its query text's.
#[verifier::spinoff_prover]
proof fn lemma_rule_intersection()
    ensures
        rule_text(QueryProgram::Intersection.module_spec()) == written_rule(QueryProgram::Intersection),
{
    lemma_atoms_intersection();
    lemma_joined_intersection();
    let m = QueryProgram::Intersection.module_spec();
    assert(rule_text(m) =~= written_rule(QueryProgram::Intersection)) by {
        reveal_strlit("intersection(x)");
        reveal_strlit(" :- ");
        reveal_strlit("Left(x), Right(x)");
        reveal_strlit(".");
        reveal_strlit("intersection(x) :- Left(x), Right(x).");
    }
}

/// The atoms of the CartesianProduct program, each in query notation.
#[verifier::rlimit(60)]
#[verifier::spinoff_prover]
proof fn lemma_atoms_cartesian_product()
    ensures
        atom_text(QueryProgram::CartesianProduct.module_spec().head) == "product(x, y, z)"@,
        QueryProgram::CartesianProduct.module_spec().body.map_values(|a: (Seq<char>, Seq<Seq<char>>)| atom_text(a))
            == seq!["A(x)"@, "B(y, z)"@],
{
    let m = QueryProgram::CartesianProduct.module_spec();
    assert(atom_text(m.head) =~= "product(x, y, z)"@) by {
        reveal_strlit("(");
        reveal_strlit(")");
        reveal_strlit(", ");
        reveal_strlit("product");
        reveal_strlit("x");
        reveal_strlit("y");
        reveal_strlit("z");
        reveal_strlit("product(x, y, z)");
        reveal_with_fuel(join_sep, 4);
    }
    assert(atom_text(m.body[0]) =~= "A(x)"@) by {
        reveal_strlit("(");
        reveal_strlit(")");
        reveal_strlit(", ");
        reveal_strlit("A");
        reveal_strlit("x");
        reveal_strlit("A(x)");
        reveal_with_fuel(join_sep, 2);
    }
    assert(atom_text(m.body[1]) =~= "B(y, z)"@) by {
        reveal_strlit("(");
        reveal_strlit(")");
        reveal_strlit(", ");
        reveal_strlit("B");
        reveal_strlit("y");
        reveal_strlit("z");
        reveal_strlit("B(y, z)");
        reveal_with_fuel(join_sep, 3);
    }
    let texts = seq!["A(x)"@, "B(y, z)"@];
    assert(m.body.map_values(|a: (Seq<char>, Seq<Seq<char>>)| atom_text(a)) =~= texts);
}

/// The atoms of the CartesianProduct program joined by commas.
#[verifier::rlimit(60)]
#[verifier::spinoff_prover]
proof fn lemma_joined_cartesian_product()
    ensures
        join_sep(seq!["A(x)"@, "B(y, z)"@], ", "@) == "A(x), B(y, z)"@,
{
    let texts = seq!["A(x)"@, "B(y, z)"@];
    assert(join_sep(texts.take(1), ", "@) == "A(x)"@);
    assert(join_sep(texts.take(2), ", "@) =~= "A(x), B(y, z)"@) by {
        assert(texts.take(2).drop_last() =~= texts.take(1));
        reveal_strlit(", ");
        reveal_strlit("A(x)");
        reveal_strlit("B(y, z)");
        reveal_strlit("A(x), B(y, z)");
    }
    assert(texts.take(2) =~= texts);
}

/// The rule of the CartesianProduct program is its query text's.
#[verifier::spinoff_prover]
proof fn lemma_rule_cartesian_product()
    ensures
        rule_text(QueryProgram::CartesianProduct.module_spec()) == written_rule(QueryProgram::CartesianProduct),
{
    lemma_atoms_cartesian_product();
    lemma_joined_cartesian_product();
    let m = QueryProgram::CartesianProduct.module_spec();
    assert(rule_text(m) =~= written_rule(QueryProgram::CartesianProduct)) by {
        reveal_strlit("product(x, y, z)");
        reveal_strlit(" :- ");
        reveal_strlit("A(x), B(y, z)");
        reveal_strlit(".");
        reveal_strlit("product(x, y, z) :- A(x), B(y, z).");
    }
}

/// The atoms of the OrientedChain program, each in query notation.
#[verifier::rlimit(60)]
#[verifier::spinoff_prover]
proof fn lemma_atoms_oriented_chain()
    ensures
        atom_text(QueryProgram::OrientedChain.module_spec().head) == "chain(a, d)"@,
        QueryProgram::OrientedChain.module_spec().body.map_values(|a: (Seq<char>, Seq<Seq<char>>)| atom_text(a))
            == seq!["Edge(a, b)"@, "Edge(b, c)"@, "Edge(d, c)"@],
{
    let m = QueryProgram::OrientedChain.module_spec();
    assert(atom_text(m.head) =~= "chain(a, d)"@) by {
        reveal_strlit("(");
        reveal_strlit(")");
        reveal_strlit(", ");
        reveal_strlit("chain");
        reveal_strlit("a");
        reveal_strlit("d");
        reveal_strlit("chain(a, d)");
        reveal_with_fuel(join_sep, 3);
    }
    assert(atom_text(m.body[0]) =~= "Edge(a, b)"@) by {
        reveal_strlit("(");
        reveal_strlit(")");
        reveal_strlit(", ");
        reveal_strlit("Edge");
        reveal_strlit("a");
        reveal_strlit("b");
        reveal_strlit("Edge(a, b)");
        reveal_with_fuel(join_sep, 3);
    }
    assert(atom_text(m.body[1]) =~= "Edge(b, c)"@) by {
        reveal_strlit("(");
        reveal_strlit(")");
        reveal_strlit(", ");
        reveal_strlit("Edge");
        reveal_strlit("b");
        reveal_strlit("c");
        reveal_strlit("Edge(b, c)");
        reveal_with_fuel(join_sep, 3);
    }
    assert(atom_text(m.body[2]) =~= "Edge(d, c)"@) by {
        reveal_strlit("(");
        reveal_strlit(")");
        reveal_strlit(", ");
        reveal_strlit("Edge");
        reveal_strlit("c");
        reveal_strlit("d");
        reveal_strlit("Edge(d, c)");
        reveal_with_fuel(join_sep, 3);
    }
    let texts = seq!["Edge(a, b)"@, "Edge(b, c)"@, "Edge(d, c)"@];
    assert(m.body.map_values(|a: (Seq<char>, Seq<Seq<char>>)| atom_text(a)) =~= texts);
}

/// The atoms of the OrientedChain program joined by commas.
#[verifier::rlimit(60)]
#[verifier::spinoff_prover]
proof fn lemma_joined_oriented_chain()
    ensures
        join_sep(seq!["Edge(a, b)"@, "Edge(b, c)"@, "Edge(d, c)"@], ", "@) == "Edge(a, b), Edge(b, c), Edge(d, c)"@,
{
    let texts = seq!["Edge(a, b)"@, "Edge(b, c)"@, "Edge(d, c)"@];
    assert(join_sep(texts.take(1), ", "@) == "Edge(a, b)"@);
    assert(join_sep(texts.take(2), ", "@) =~= "Edge(a, b), Edge(b, c)"@) by {
        assert(texts.take(2).drop_last() =~= texts.take(1));
        reveal_strlit(", ");
        reveal_strlit("Edge(a, b)");
        reveal_strlit("Edge(b, c)");
        reveal_strlit("Edge(a, b), Edge(b, c)");
    }
    assert(join_sep(texts.take(3), ", "@) =~= "Edge(a, b), Edge(b, c), Edge(d, c)"@) by {
        assert(texts.take(3).drop_last() =~= texts.take(2));
        reveal_strlit(", ");
        reveal_strlit("Edge(a, b), Edge(b, c)");
        reveal_strlit("Edge(d, c)");
        reveal_strlit("Edge(a, b), Edge(b, c), Edge(d, c)");
    }
    assert(texts.take(3) =~= texts);
}

/// The rule of the OrientedChain program is its query text's.
#[verifier::spinoff_prover]
proof fn lemma_rule_oriented_chain()
    ensures
        rule_text(QueryProgram::OrientedChain.module_spec()) == written_rule(QueryProgram::OrientedChain),
{
    lemma_atoms_oriented_chain();
    lemma_joined_oriented_chain();
    let m = QueryProgram::OrientedChain.module_spec();
    assert(rule_text(m) =~= written_rule(QueryProgram::OrientedChain)) by {
        reveal_strlit("chain(a, d)");
        reveal_strlit(" :- ");
        reveal_strlit("Edge(a, b), Edge(b, c), Edge(d, c)");
        reveal_strlit(".");
        reveal_strlit("chain(a, d) :- Edge(a, b), Edge(b, c), Edge(d, c).");
    }
}

/// The atoms of the Claw program, each in query notation.
#[verifier::rlimit(60)]
#[verifier::spinoff_prover]
proof fn lemma_atoms_claw()
    ensures
        atom_text(QueryProgram::Claw.module_spec().head) == "claw(center, a, b, c)"@,
        QueryProgram::Claw.module_spec().body.map_values(|a: (Seq<char>, Seq<Seq<char>>)| atom_text(a))
            == seq!["A(center, a)"@, "B(center, b)"@, "C(center, c)"@],
{
    let m = QueryProgram::Claw.module_spec();
    assert(atom_text(m.head) =~= "claw(center, a, b, c)"@) by {
        reveal_strlit("(");
        reveal_strlit(")");
        reveal_strlit(", ");
        reveal_strlit("claw");
        reveal_strlit("a");
        reveal_strlit("b");
        reveal_strlit("c");
        reveal_strlit("center");
        reveal_strlit("claw(center, a, b, c)");
        reveal_with_fuel(join_sep, 5);
    }
    assert(atom_text(m.body[0]) =~= "A(center, a)"@) by {
        reveal_strlit("(");
        reveal_strlit(")");
        reveal_strlit(", ");
        reveal_strlit("A");
        reveal_strlit("a");
        reveal_strlit("center");
        reveal_strlit("A(center, a)");
        reveal_with_fuel(join_sep, 3);
    }
    assert(atom_text(m.body[1]) =~= "B(center, b)"@) by {
        reveal_strlit("(");
        reveal_strlit(")");
        reveal_strlit(", ");
        reveal_strlit("B");
        reveal_strlit("b");
        reveal_strlit("center");
        reveal_strlit("B(center, b)");
        reveal_with_fuel(join_sep, 3);
    }
    assert(atom_text(m.body[2]) =~= "C(center, c)"@) by {
        reveal_strlit("(");
        reveal_strlit(")");
        reveal_strlit(", ");
        reveal_strlit("C");
        reveal_strlit("c");
        reveal_strlit("center");
        reveal_strlit("C(center, c)");
        reveal_with_fuel(join_sep, 3);
    }
    let texts = seq!["A(center, a)"@, "B(center, b)"@, "C(center, c)"@];
    assert(m.body.map_values(|a: (Seq<char>, Seq<Seq<char>>)| atom_text(a)) =~= texts);
}

/// The atoms of the Claw program joined by commas.
#[verifier::rlimit(60)]
#[verifier::spinoff_prover]
proof fn lemma_joined_claw()
    ensures
        join_sep(seq!["A(center, a)"@, "B(center, b)"@, "C(center, c)"@], ", "@) == "A(center, a), B(center, b), C(center, c)"@,
{
    let texts = seq!["A(center, a)"@, "B(center, b)"@, "C(center, c)"@];
    assert(join_sep(texts.take(1), ", "@) == "A(center, a)"@);
    assert(join_sep(texts.take(2), ", "@) =~= "A(center, a), B(center, b)"@) by {
        assert(texts.take(2).drop_last() =~= texts.take(1));
        reveal_strlit(", ");
        reveal_strlit("A(center, a)");
        reveal_strlit("B(center, b)");
        reveal_strlit("A(center, a), B(center, b)");
    }
    assert(join_sep(texts.take(3), ", "@) =~= "A(center, a), B(center, b), C(center, c)"@) by {
        assert(texts.take(3).drop_last() =~= texts.take(2));
        reveal_strlit(", ");
        reveal_strlit("A(center, a), B(center, b)");
        reveal_strlit("C(center, c)");
        reveal_strlit("A(center, a), B(center, b), C(center, c)");
    }
    assert(texts.take(3) =~= texts);
}

/// The rule of the Claw program is its query text's.
#[verifier::spinoff_prover]
proof fn lemma_rule_claw()
    ensures
        rule_text(QueryProgram::Claw.module_spec()) == written_rule(QueryProgram::Claw),
{
    lemma_atoms_claw();
    lemma_joined_claw();
    let m = QueryProgram::Claw.module_spec();
    assert(rule_text(m) =~= written_rule(QueryProgram::Claw)) by {
        reveal_strlit("claw(center, a, b, c)");
        reveal_strlit(" :- ");
        reveal_strlit("A(center, a), B(center, b), C(center, c)");
        reveal_strlit(".");
        reveal_strlit("claw(center, a, b, c) :- A(center, a), B(center, b), C(center, c).");
    }
}

/// The atoms of the FactStar program, each in query notation.
#[verifier::rlimit(60)]
#[verifier::spinoff_prover]
proof fn lemma_atoms_fact_star()
    ensures
        atom_text(QueryProgram::FactStar.module_spec().head) == "fact_star(k1, k2, k3, a, b, c)"@,
        QueryProgram::FactStar.module_spec().body.map_values(|a: (Seq<char>, Seq<Seq<char>>)| atom_text(a))
            == seq!["Fact(k1, k2, k3)"@, "DimA(k1, a)"@, "DimB(k2, b)"@, "DimC(k3, c)"@],
{
    let m = QueryProgram::FactStar.module_spec();
    assert(atom_text(m.head) =~= "fact_star(k1, k2, k3, a, b, c)"@) by {
        reveal_strlit("(");
        reveal_strlit(")");
        reveal_strlit(", ");
        reveal_strlit("fact_star");
        reveal_strlit("a");
        reveal_strlit("b");
        reveal_strlit("c");
        reveal_strlit("k1");
        reveal_strlit("k2");
        reveal_strlit("k3");
        reveal_strlit("fact_star(k1, k2, k3, a, b, c)");
        reveal_with_fuel(join_sep, 7);
    }
    assert(atom_text(m.body[0]) =~= "Fact(k1, k2, k3)"@) by {
        reveal_strlit("(");
        reveal_strlit(")");
        reveal_strlit(", ");
        reveal_strlit("Fact");
        reveal_strlit("k1");
        reveal_strlit("k2");
        reveal_strlit("k3");
        reveal_strlit("Fact(k1, k2, k3)");
        reveal_with_fuel(join_sep, 4);
    }
    assert(atom_text(m.body[1]) =~= "DimA(k1, a)"@) by {
        reveal_strlit("(");
        reveal_strlit(")");
        reveal_strlit(", ");
        reveal_strlit("DimA");
        reveal_strlit("a");
        reveal_strlit("k1");
        reveal_strlit("DimA(k1, a)");
        reveal_with_fuel(join_sep, 3);
    }
    assert(atom_text(m.body[2]) =~= "DimB(k2, b)"@) by {
        reveal_strlit("(");
        reveal_strlit(")");
        reveal_strlit(", ");
        reveal_strlit("DimB");
        reveal_strlit("b");
        reveal_strlit("k2");
        reveal_strlit("DimB(k2, b)");
        reveal_with_fuel(join_sep, 3);
    }
    assert(atom_text(m.body[3]) =~= "DimC(k3, c)"@) by {
        reveal_strlit("(");
        reveal_strlit(")");
        reveal_strlit(", ");
        reveal_strlit("DimC");
        reveal_strlit("c");
        reveal_strlit("k3");
        reveal_strlit("DimC(k3, c)");
        reveal_with_fuel(join_sep, 3);
    }
    let texts = seq!["Fact(k1, k2, k3)"@, "DimA(k1, a)"@, "DimB(k2, b)"@, "DimC(k3, c)"@];
    assert(m.body.map_values(|a: (Seq<char>, Seq<Seq<char>>)| atom_text(a)) =~= texts);
}

/// The atoms of the FactStar program joined by commas.
#[verifier::rlimit(60)]
#[verifier::spinoff_prover]
proof fn lemma_joined_fact_star()
    ensures
        join_sep(seq!["Fact(k1, k2, k3)"@, "DimA(k1, a)"@, "DimB(k2, b)"@, "DimC(k3, c)"@], ", "@) == "Fact(k1, k2, k3), DimA(k1, a), DimB(k2, b), DimC(k3, c)"@,
{
    let texts = seq!["Fact(k1, k2, k3)"@, "DimA(k1, a)"@, "DimB(k2, b)"@, "DimC(k3, c)"@];
    assert(join_sep(texts.take(1), ", "@) == "Fact(k1, k2, k3)"@);
    assert(join_sep(texts.take(2), ", "@) =~= "Fact(k1, k2, k3), DimA(k1, a)"@) by {
        assert(texts.take(2).drop_last() =~= texts.take(1));
        reveal_strlit(", ");
        reveal_strlit("Fact(k1, k2, k3)");
        reveal_strlit("DimA(k1, a)");
        reveal_strlit("Fact(k1, k2, k3), DimA(k1, a)");
    }
    assert(join_sep(texts.take(3), ", "@) =~= "Fact(k1, k2, k3), DimA(k1, a), DimB(k2, b)"@) by {
        assert(texts.take(3).drop_last() =~= texts.take(2));
        reveal_strlit(", ");
        reveal_strlit("Fact(k1, k2, k3), DimA(k1, a)");
        reveal_strlit("DimB(k2, b)");
        reveal_strlit("Fact(k1, k2, k3), DimA(k1, a), DimB(k2, b)");
    }
    assert(join_sep(texts.take(4), ", "@) =~= "Fact(k1, k2, k3), DimA(k1, a), DimB(k2, b), DimC(k3, c)"@) by {
        assert(texts.take(4).drop_last() =~= texts.take(3));
        reveal_strlit(", ");
        reveal_strlit("Fact(k1, k2, k3), DimA(k1, a), DimB(k2, b)");
        reveal_strlit("DimC(k3, c)");
        reveal_strlit("Fact(k1, k2, k3), DimA(k1, a), DimB(k2, b), DimC(k3, c)");
    }
    assert(texts.take(4) =~= texts);
}

/// The rule of the FactStar program is its query text's.
#[verifier::spinoff_prover]
proof fn lemma_rule_fact_star()
    ensures
        rule_text(QueryProgram::FactStar.module_spec()) == written_rule(QueryProgram::FactStar),
{
    lemma_atoms_fact_star();
    lemma_joined_fact_star();
    let m = QueryProgram::FactStar.module_spec();
    assert(rule_text(m) =~= written_rule(QueryProgram::FactStar)) by {
        reveal_strlit("fact_star(k1, k2, k3, a, b, c)");
        reveal_strlit(" :- ");
        reveal_strlit("Fact(k1, k2, k3), DimA(k1, a), DimB(k2, b), DimC(k3, c)");
        reveal_strlit(".");
        reveal_strlit("fact_star(k1, k2, k3, a, b, c) :- Fact(k1, k2, k3), DimA(k1, a), DimB(k2, b), DimC(k3, c).");
    }
}

/// The atoms of the Triangle program, each in query notation.
#[verifier::rlimit(60)]
#[verifier::spinoff_prover]
proof fn lemma_atoms_triangle()
    ensures
        atom_text(QueryProgram::Triangle.module_spec().head) == "triangle(x, y, z)"@,
        QueryProgram::Triangle.module_spec().body.map_values(|a: (Seq<char>, Seq<Seq<char>>)| atom_text(a))
            == seq!["R(x, y)"@, "S(y, z)"@, "T(z, x)"@],
{
    let m = QueryProgram::Triangle.module_spec();
    assert(atom_text(m.head) =~= "triangle(x, y, z)"@) by {
        reveal_strlit("(");
        reveal_strlit(")");
        reveal_strlit(", ");
        reveal_strlit("triangle");
        reveal_strlit("x");
        reveal_strlit("y");
        reveal_strlit("z");
        reveal_strlit("triangle(x, y, z)");
        reveal_with_fuel(join_sep, 4);
    }
    assert(atom_text(m.body[0]) =~= "R(x, y)"@) by {
        reveal_strlit("(");
        reveal_strlit(")");
        reveal_strlit(", ");
        reveal_strlit("R");
        reveal_strlit("x");
        reveal_strlit("y");
        reveal_strlit("R(x, y)");
        reveal_with_fuel(join_sep, 3);
    }
    assert(atom_text(m.body[1]) =~= "S(y, z)"@) by {
        reveal_strlit("(");
        reveal_strlit(")");
        reveal_strlit(", ");
        reveal_strlit("S");
        reveal_strlit("y");
        reveal_strlit("z");
        reveal_strlit("S(y, z)");
        reveal_with_fuel(join_sep, 3);
    }
    assert(atom_text(m.body[2]) =~= "T(z, x)"@) by {
        reveal_strlit("(");
        reveal_strlit(")");
        reveal_strlit(", ");
        reveal_strlit("T");
        reveal_strlit("x");
        reveal_strlit("z");
        reveal_strlit("T(z, x)");
        reveal_with_fuel(join_sep, 3);
    }
    let texts = seq!["R(x, y)"@, "S(y, z)"@, "T(z, x)"@];
    assert(m.body.map_values(|a: (Seq<char>, Seq<Seq<char>>)| atom_text(a)) =~= texts);
}

/// The atoms of the Triangle program joined by commas.
#[verifier::rlimit(60)]
#[verifier::spinoff_prover]
proof fn lemma_joined_triangle()
    ensures
        join_sep(seq!["R(x, y)"@, "S(y, z)"@, "T(z, x)"@], ", "@) == "R(x, y), S(y, z), T(z, x)"@,
{
    let texts = seq!["R(x, y)"@, "S(y, z)"@, "T(z, x)"@];
    assert(join_sep(texts.take(1), ", "@) == "R(x, y)"@);
    assert(join_sep(texts.take(2), ", "@) =~= "R(x, y), S(y, z)"@) by {
        assert(texts.take(2).drop_last() =~= texts.take(1));
        reveal_strlit(", ");
        reveal_strlit("R(x, y)");
        reveal_strlit("S(y, z)");
        reveal_strlit("R(x, y), S(y, z)");
    }
    assert(join_sep(texts.take(3), ", "@) =~= "R(x, y), S(y, z), T(z, x)"@) by {
        assert(texts.take(3).drop_last() =~= texts.take(2));
        reveal_strlit(", ");
        reveal_strlit("R(x, y), S(y, z)");
        reveal_strlit("T(z, x)");
        reveal_strlit("R(x, y), S(y, z), T(z, x)");
    }
    assert(texts.take(3) =~= texts);
}

/// The rule of the Triangle program is its query text's.
#[verifier::spinoff_prover]
proof fn lemma_rule_triangle()
    ensures
        rule_text(QueryProgram::Triangle.module_spec()) == written_rule(QueryProgram::Triangle),
{
    lemma_atoms_triangle();
    lemma_joined_triangle();
    let m = QueryProgram::Triangle.module_spec();
    assert(rule_text(m) =~= written_rule(QueryProgram::Triangle)) by {
        reveal_strlit("triangle(x, y, z)");
        reveal_strlit(" :- ");
        reveal_strlit("R(x, y), S(y, z), T(z, x)");
        reveal_strlit(".");
        reveal_strlit("triangle(x, y, z) :- R(x, y), S(y, z), T(z, x).");
    }
}

/// The atoms of the Cycle4 program, each in query notation.
#[verifier::rlimit(60)]
#[verifier::spinoff_prover]
proof fn lemma_atoms_cycle_4()
    ensures
        atom_text(QueryProgram::Cycle4.module_spec().head) == "cycle4(a, b, c, d)"@,
        QueryProgram::Cycle4.module_spec().body.map_values(|a: (Seq<char>, Seq<Seq<char>>)| atom_text(a))
            == seq!["R(a, b)"@, "S(b, c)"@, "T(c, d)"@, "U(d, a)"@],
{
    let m = QueryProgram::Cycle4.module_spec();
    assert(atom_text(m.head) =~= "cycle4(a, b, c, d)"@) by {
        reveal_strlit("(");
        reveal_strlit(")");
        reveal_strlit(", ");
        reveal_strlit("cycle4");
        reveal_strlit("a");
        reveal_strlit("b");
        reveal_strlit("c");
        reveal_strlit("d");
        reveal_strlit("cycle4(a, b, c, d)");
        reveal_with_fuel(join_sep, 5);
    }
    assert(atom_text(m.body[0]) =~= "R(a, b)"@) by {
        reveal_strlit("(");
        reveal_strlit(")");
        reveal_strlit(", ");
        reveal_strlit("R");
        reveal_strlit("a");
        reveal_strlit("b");
        reveal_strlit("R(a, b)");
        reveal_with_fuel(join_sep, 3);
    }
    assert(atom_text(m.body[1]) =~= "S(b, c)"@) by {
        reveal_strlit("(");
        reveal_strlit(")");
        reveal_strlit(", ");
        reveal_strlit("S");
        reveal_strlit("b");
        reveal_strlit("c");
        reveal_strlit("S(b, c)");
        reveal_with_fuel(join_sep, 3);
    }
    assert(atom_text(m.body[2]) =~= "T(c, d)"@) by {
        reveal_strlit("(");
        reveal_strlit(")");
        reveal_strlit(", ");
        reveal_strlit("T");
        reveal_strlit("c");
        reveal_strlit("d");
        reveal_strlit("T(c, d)");
        reveal_with_fuel(join_sep, 3);
    }
    assert(atom_text(m.body[3]) =~= "U(d, a)"@) by {
        reveal_strlit("(");
        reveal_strlit(")");
        reveal_strlit(", ");
        reveal_strlit("U");
        reveal_strlit("a");
        reveal_strlit("d");
        reveal_strlit("U(d, a)");
        reveal_with_fuel(join_sep, 3);
    }
    let texts = seq!["R(a, b)"@, "S(b, c)"@, "T(c, d)"@, "U(d, a)"@];
    assert(m.body.map_values(|a: (Seq<char>, Seq<Seq<char>>)| atom_text(a)) =~= texts);
}

/// The atoms of the Cycle4 program joined by commas.
#[verifier::rlimit(60)]
#[verifier::spinoff_prover]
proof fn lemma_joined_cycle_4()
    ensures
        join_sep(seq!["R(a, b)"@, "S(b, c)"@, "T(c, d)"@, "U(d, a)"@], ", "@) == "R(a, b), S(b, c), T(c, d), U(d, a)"@,
{
    let texts = seq!["R(a, b)"@, "S(b, c)"@, "T(c, d)"@, "U(d, a)"@];
    assert(join_sep(texts.take(1), ", "@) == "R(a, b)"@);
    assert(join_sep(texts.take(2), ", "@) =~= "R(a, b), S(b, c)"@) by {
        assert(texts.take(2).drop_last() =~= texts.take(1));
        reveal_strlit(", ");
        reveal_strlit("R(a, b)");
        reveal_strlit("S(b, c)");
        reveal_strlit("R(a, b), S(b, c)");
    }
    assert(join_sep(texts.take(3), ", "@) =~= "R(a, b), S(b, c), T(c, d)"@) by {
        assert(texts.take(3).drop_last() =~= texts.take(2));
        reveal_strlit(", ");
        reveal_strlit("R(a, b), S(b, c)");
        reveal_strlit("T(c, d)");
        reveal_strlit("R(a, b), S(b, c), T(c, d)");
    }
    assert(join_sep(texts.take(4), ", "@) =~= "R(a, b), S(b, c), T(c, d), U(d, a)"@) by {
        assert(texts.take(4).drop_last() =~= texts.take(3));
        reveal_strlit(", ");
        reveal_strlit("R(a, b), S(b, c), T(c, d)");
        reveal_strlit("U(d, a)");
        reveal_strlit("R(a, b), S(b, c), T(c, d), U(d, a)");
    }
    assert(texts.take(4) =~= texts);
}

/// The rule of the Cycle4 program is its query text's.
#[verifier::spinoff_prover]
proof fn lemma_rule_cycle_4()
    ensures
        rule_text(QueryProgram::Cycle4.module_spec()) == written_rule(QueryProgram::Cycle4),
{
    lemma_atoms_cycle_4();
    lemma_joined_cycle_4();
    let m = QueryProgram::Cycle4.module_spec();
    assert(rule_text(m) =~= written_rule(QueryProgram::Cycle4)) by {
        reveal_strlit("cycle4(a, b, c, d)");
        reveal_strlit(" :- ");
        reveal_strlit("R(a, b), S(b, c), T(c, d), U(d, a)");
        reveal_strlit(".");
        reveal_strlit("cycle4(a, b, c, d) :- R(a, b), S(b, c), T(c, d), U(d, a).");
    }
}

/// The atoms of the Spade program, each in query notation.
#[verifier::rlimit(60)]
#[verifier::spinoff_prover]
proof fn lemma_atoms_spade()
    ensures
        atom_text(QueryProgram::Spade.module_spec().head) == "spade(x, y, z, w)"@,
        QueryProgram::Spade.module_spec().body.map_values(|a: (Seq<char>, Seq<Seq<char>>)| atom_text(a))
            == seq!["R(x, y)"@, "S(y, z)"@, "T(x, z)"@, "H(x, w)"@],
{
    let m = QueryProgram::Spade.module_spec();
    assert(atom_text(m.head) =~= "spade(x, y, z, w)"@) by {
        reveal_strlit("(");
        reveal_strlit(")");
        reveal_strlit(", ");
        reveal_strlit("spade");
        reveal_strlit("w");
        reveal_strlit("x");
        reveal_strlit("y");
        reveal_strlit("z");
        reveal_strlit("spade(x, y, z, w)");
        reveal_with_fuel(join_sep, 5);
    }
    assert(atom_text(m.body[0]) =~= "R(x, y)"@) by {
        reveal_strlit("(");
        reveal_strlit(")");
        reveal_strlit(", ");
        reveal_strlit("R");
        reveal_strlit("x");
        reveal_strlit("y");
        reveal_strlit("R(x, y)");
        reveal_with_fuel(join_sep, 3);
    }
    assert(atom_text(m.body[1]) =~= "S(y, z)"@) by {
        reveal_strlit("(");
        reveal_strlit(")");
        reveal_strlit(", ");
        reveal_strlit("S");
        reveal_strlit("y");
        reveal_strlit("z");
        reveal_strlit("S(y, z)");
        reveal_with_fuel(join_sep, 3);
    }
    assert(atom_text(m.body[2]) =~= "T(x, z)"@) by {
        reveal_strlit("(");
        reveal_strlit(")");
        reveal_strlit(", ");
        reveal_strlit("T");
        reveal_strlit("x");
        reveal_strlit("z");
        reveal_strlit("T(x, z)");
        reveal_with_fuel(join_sep, 3);
    }
    assert(atom_text(m.body[3]) =~= "H(x, w)"@) by {
        reveal_strlit("(");
        reveal_strlit(")");
        reveal_strlit(", ");
        reveal_strlit("H");
        reveal_strlit("w");
        reveal_strlit("x");
        reveal_strlit("H(x, w)");
        reveal_with_fuel(join_sep, 3);
    }
    let texts = seq!["R(x, y)"@, "S(y, z)"@, "T(x, z)"@, "H(x, w)"@];
    assert(m.body.map_values(|a: (Seq<char>, Seq<Seq<char>>)| atom_text(a)) =~= texts);
}

/// The atoms of the Spade program joined by commas.
#[verifier::rlimit(60)]
#[verifier::spinoff_prover]
proof fn lemma_joined_spade()
    ensures
        join_sep(seq!["R(x, y)"@, "S(y, z)"@, "T(x, z)"@, "H(x, w)"@], ", "@) == "R(x, y), S(y, z), T(x, z), H(x, w)"@,
{
    let texts = seq!["R(x, y)"@, "S(y, z)"@, "T(x, z)"@, "H(x, w)"@];
    assert(join_sep(texts.take(1), ", "@) == "R(x, y)"@);
    assert(join_sep(texts.take(2), ", "@) =~= "R(x, y), S(y, z)"@) by {
        assert(texts.take(2).drop_last() =~= texts.take(1));
        reveal_strlit(", ");
        reveal_strlit("R(x, y)");
        reveal_strlit("S(y, z)");
        reveal_strlit("R(x, y), S(y, z)");
    }
    assert(join_sep(texts.take(3), ", "@) =~= "R(x, y), S(y, z), T(x, z)"@) by {
        assert(texts.take(3).drop_last() =~= texts.take(2));
        reveal_strlit(", ");
        reveal_strlit("R(x, y), S(y, z)");
        reveal_strlit("T(x, z)");
        reveal_strlit("R(x, y), S(y, z), T(x, z)");
    }
    assert(join_sep(texts.take(4), ", "@) =~= "R(x, y), S(y, z), T(x, z), H(x, w)"@) by {
        assert(texts.take(4).drop_last() =~= texts.take(3));
        reveal_strlit(", ");
        reveal_strlit("R(x, y), S(y, z), T(x, z)");
        reveal_strlit("H(x, w)");
        reveal_strlit("R(x, y), S(y, z), T(x, z), H(x, w)");
    }
    assert(texts.take(4) =~= texts);
}

/// The rule of the Spade program is its query text's.
#[verifier::spinoff_prover]
proof fn lemma_rule_spade()
    ensures
        rule_text(QueryProgram::Spade.module_spec()) == written_rule(QueryProgram::Spade),
{
    lemma_atoms_spade();
    lemma_joined_spade();
    let m = QueryProgram::Spade.module_spec();
    assert(rule_text(m) =~= written_rule(QueryProgram::Spade)) by {
        reveal_strlit("spade(x, y, z, w)");
        reveal_strlit(" :- ");
        reveal_strlit("R(x, y), S(y, z), T(x, z), H(x, w)");
        reveal_strlit(".");
        reveal_strlit("spade(x, y, z, w) :- R(x, y), S(y, z), T(x, z), H(x, w).");
    }
}

/// The atoms of the Barbell program, each in query notation.
#[verifier::rlimit(60)]
#[verifier::spinoff_prover]
proof fn lemma_atoms_barbell()
    ensures
        atom_text(QueryProgram::Barbell.module_spec().head) == "barbell(x, y, z, u, v, w)"@,
        QueryProgram::Barbell.module_spec().body.map_values(|a: (Seq<char>, Seq<Seq<char>>)| atom_text(a))
            == seq!["R(x, y)"@, "S(y, z)"@, "T(x, z)"@, "Bridge(x, u)"@, "U(u, v)"@, "V(v, w)"@, "W(u, w)"@],
{
    let m = QueryProgram::Barbell.module_spec();
    assert(atom_text(m.head) =~= "barbell(x, y, z, u, v, w)"@) by {
        reveal_strlit("(");
        reveal_strlit(")");
        reveal_strlit(", ");
        reveal_strlit("barbell");
        reveal_strlit("u");
        reveal_strlit("v");
        reveal_strlit("w");
        reveal_strlit("x");
        reveal_strlit("y");
        reveal_strlit("z");
        reveal_strlit("barbell(x, y, z, u, v, w)");
        reveal_with_fuel(join_sep, 7);
    }
    assert(atom_text(m.body[0]) =~= "R(x, y)"@) by {
        reveal_strlit("(");
        reveal_strlit(")");
        reveal_strlit(", ");
        reveal_strlit("R");
        reveal_strlit("x");
        reveal_strlit("y");
        reveal_strlit("R(x, y)");
        reveal_with_fuel(join_sep, 3);
    }
    assert(atom_text(m.body[1]) =~= "S(y, z)"@) by {
        reveal_strlit("(");
        reveal_strlit(")");
        reveal_strlit(", ");
        reveal_strlit("S");
        reveal_strlit("y");
        reveal_strlit("z");
        reveal_strlit("S(y, z)");
        reveal_with_fuel(join_sep, 3);
    }
    assert(atom_text(m.body[2]) =~= "T(x, z)"@) by {
        reveal_strlit("(");
        reveal_strlit(")");
        reveal_strlit(", ");
        reveal_strlit("T");
        reveal_strlit("x");
        reveal_strlit("z");
        reveal_strlit("T(x, z)");
        reveal_with_fuel(join_sep, 3);
    }
    assert(atom_text(m.body[3]) =~= "Bridge(x, u)"@) by {
        reveal_strlit("(");
        reveal_strlit(")");
        reveal_strlit(", ");
        reveal_strlit("Bridge");
        reveal_strlit("u");
        reveal_strlit("x");
        reveal_strlit("Bridge(x, u)");
        reveal_with_fuel(join_sep, 3);
    }
    assert(atom_text(m.body[4]) =~= "U(u, v)"@) by {
        reveal_strlit("(");
        reveal_strlit(")");
        reveal_strlit(", ");
        reveal_strlit("U");
        reveal_strlit("u");
        reveal_strlit("v");
        reveal_strlit("U(u, v)");
        reveal_with_fuel(join_sep, 3);
    }
    assert(atom_text(m.body[5]) =~= "V(v, w)"@) by {
        reveal_strlit("(");
        reveal_strlit(")");
        reveal_strlit(", ");
        reveal_strlit("V");
        reveal_strlit("v");
        reveal_strlit("w");
        reveal_strlit("V(v, w)");
        reveal_with_fuel(join_sep, 3);
    }
    assert(atom_text(m.body[6]) =~= "W(u, w)"@) by {
        reveal_strlit("(");
        reveal_strlit(")");
        reveal_strlit(", ");
        reveal_strlit("W");
        reveal_strlit("u");
        reveal_strlit("w");
        reveal_strlit("W(u, w)");
        reveal_with_fuel(join_sep, 3);
    }
    let texts = seq!["R(x, y)"@, "S(y, z)"@, "T(x, z)"@, "Bridge(x, u)"@, "U(u, v)"@, "V(v, w)"@, "W(u, w)"@];
    assert(m.body.map_values(|a: (Seq<char>, Seq<Seq<char>>)| atom_text(a)) =~= texts);
}

/// The atoms of the Barbell program joined by commas.
#[verifier::rlimit(60)]
#[verifier::spinoff_prover]
proof fn lemma_joined_barbell()
    ensures
        join_sep(seq!["R(x, y)"@, "S(y, z)"@, "T(x, z)"@, "Bridge(x, u)"@, "U(u, v)"@, "V(v, w)"@, "W(u, w)"@], ", "@) == "R(x, y), S(y, z), T(x, z), Bridge(x, u), U(u, v), V(v, w), W(u, w)"@,
{
    let texts = seq!["R(x, y)"@, "S(y, z)"@, "T(x, z)"@, "Bridge(x, u)"@, "U(u, v)"@, "V(v, w)"@, "W(u, w)"@];
    assert(join_sep(texts.take(1), ", "@) == "R(x, y)"@);
    assert(join_sep(texts.take(2), ", "@) =~= "R(x, y), S(y, z)"@) by {
        assert(texts.take(2).drop_last() =~= texts.take(1));
        reveal_strlit(", ");
        reveal_strlit("R(x, y)");
        reveal_strlit("S(y, z)");
        reveal_strlit("R(x, y), S(y, z)");
    }
    assert(join_sep(texts.take(3), ", "@) =~= "R(x, y), S(y, z), T(x, z)"@) by {
        assert(texts.take(3).drop_last() =~= texts.take(2));
        reveal_strlit(", ");
        reveal_strlit("R(x, y), S(y, z)");
        reveal_strlit("T(x, z)");
        reveal_strlit("R(x, y), S(y, z), T(x, z)");
    }
    assert(join_sep(texts.take(4), ", "@) =~= "R(x, y), S(y, z), T(x, z), Bridge(x, u)"@) by {
        assert(texts.take(4).drop_last() =~= texts.take(3));
        reveal_strlit(", ");
        reveal_strlit("R(x, y), S(y, z), T(x, z)");
        reveal_strlit("Bridge(x, u)");
        reveal_strlit("R(x, y), S(y, z), T(x, z), Bridge(x, u)");
    }
    assert(join_sep(texts.take(5), ", "@) =~= "R(x, y), S(y, z), T(x, z), Bridge(x, u), U(u, v)"@) by {
        assert(texts.take(5).drop_last() =~= texts.take(4));
        reveal_strlit(", ");
        reveal_strlit("R(x, y), S(y, z), T(x, z), Bridge(x, u)");
        reveal_strlit("U(u, v)");
        reveal_strlit("R(x, y), S(y, z), T(x, z), Bridge(x, u), U(u, v)");
    }
    assert(join_sep(texts.take(6), ", "@) =~= "R(x, y), S(y, z), T(x, z), Bridge(x, u), U(u, v), V(v, w)"@) by {
        assert(texts.take(6).drop_last() =~= texts.take(5));
        reveal_strlit(", ");
        reveal_strlit("R(x, y), S(y, z), T(x, z), Bridge(x, u), U(u, v)");
        reveal_strlit("V(v, w)");
        reveal_strlit("R(x, y), S(y, z), T(x, z), Bridge(x, u), U(u, v), V(v, w)");
    }
    assert(join_sep(texts.take(7), ", "@) =~= "R(x, y), S(y, z), T(x, z), Bridge(x, u), U(u, v), V(v, w), W(u, w)"@) by {
        assert(texts.take(7).drop_last() =~= texts.take(6));
        reveal_strlit(", ");
        reveal_strlit("R(x, y), S(y, z), T(x, z), Bridge(x, u), U(u, v), V(v, w)");
        reveal_strlit("W(u, w)");
        reveal_strlit("R(x, y), S(y, z), T(x, z), Bridge(x, u), U(u, v), V(v, w), W(u, w)");
    }
    assert(texts.take(7) =~= texts);
}

/// The rule of the Barbell program is its query text's.
#[verifier::spinoff_prover]
proof fn lemma_rule_barbell()
    ensures
        rule_text(QueryProgram::Barbell.module_spec()) == written_rule(QueryProgram::Barbell),
{
    lemma_atoms_barbell();
    lemma_joined_barbell();
    let m = QueryProgram::Barbell.module_spec();
    assert(rule_text(m) =~= written_rule(QueryProgram::Barbell)) by {
        reveal_strlit("barbell(x, y, z, u, v, w)");
        reveal_strlit(" :- ");
        reveal_strlit("R(x, y), S(y, z), T(x, z), Bridge(x, u), U(u, v), V(v, w), W(u, w)");
        reveal_strlit(".");
        reveal_strlit("barbell(x, y, z, u, v, w) :- R(x, y), S(y, z), T(x, z), Bridge(x, u), U(u, v), V(v, w), W(u, w).");
    }
}

/// The atoms of the LoomisWhitney4 program, each in query notation.
#[verifier::rlimit(60)]
#[verifier::spinoff_prover]
proof fn lemma_atoms_loomis_whitney_4()
    ensures
        atom_text(QueryProgram::LoomisWhitney4.module_spec().head) == "lw4(a, b, c, d)"@,
        QueryProgram::LoomisWhitney4.module_spec().body.map_values(|a: (Seq<char>, Seq<Seq<char>>)| atom_text(a))
            == seq!["ABC(a, b, c)"@, "BCD(b, c, d)"@, "ACD(a, c, d)"@, "ABD(a, b, d)"@],
{
    let m = QueryProgram::LoomisWhitney4.module_spec();
    assert(atom_text(m.head) =~= "lw4(a, b, c, d)"@) by {
        reveal_strlit("(");
        reveal_strlit(")");
        reveal_strlit(", ");
        reveal_strlit("lw4");
        reveal_strlit("a");
        reveal_strlit("b");
        reveal_strlit("c");
        reveal_strlit("d");
        reveal_strlit("lw4(a, b, c, d)");
        reveal_with_fuel(join_sep, 5);
    }
    assert(atom_text(m.body[0]) =~= "ABC(a, b, c)"@) by {
        reveal_strlit("(");
        reveal_strlit(")");
        reveal_strlit(", ");
        reveal_strlit("ABC");
        reveal_strlit("a");
        reveal_strlit("b");
        reveal_strlit("c");
        reveal_strlit("ABC(a, b, c)");
        reveal_with_fuel(join_sep, 4);
    }
    assert(atom_text(m.body[1]) =~= "BCD(b, c, d)"@) by {
        reveal_strlit("(");
        reveal_strlit(")");
        reveal_strlit(", ");
        reveal_strlit("BCD");
        reveal_strlit("b");
        reveal_strlit("c");
        reveal_strlit("d");
        reveal_strlit("BCD(b, c, d)");
        reveal_with_fuel(join_sep, 4);
    }
    assert(atom_text(m.body[2]) =~= "ACD(a, c, d)"@) by {
        reveal_strlit("(");
        reveal_strlit(")");
        reveal_strlit(", ");
        reveal_strlit("ACD");
        reveal_strlit("a");
        reveal_strlit("c");
        reveal_strlit("d");
        reveal_strlit("ACD(a, c, d)");
        reveal_with_fuel(join_sep, 4);
    }
    assert(atom_text(m.body[3]) =~= "ABD(a, b, d)"@) by {
        reveal_strlit("(");
        reveal_strlit(")");
        reveal_strlit(", ");
        reveal_strlit("ABD");
        reveal_strlit("a");
        reveal_strlit("b");
        reveal_strlit("d");
        reveal_strlit("ABD(a, b, d)");
        reveal_with_fuel(join_sep, 4);
    }
    let texts = seq!["ABC(a, b, c)"@, "BCD(b, c, d)"@, "ACD(a, c, d)"@, "ABD(a, b, d)"@];
    assert(m.body.map_values(|a: (Seq<char>, Seq<Seq<char>>)| atom_text(a)) =~= texts);
}

/// The atoms of the LoomisWhitney4 program joined by commas.
#[verifier::rlimit(60)]
#[verifier::spinoff_prover]
proof fn lemma_joined_loomis_whitney_4()
    ensures
        join_sep(seq!["ABC(a, b, c)"@, "BCD(b, c, d)"@, "ACD(a, c, d)"@, "ABD(a, b, d)"@], ", "@) == "ABC(a, b, c), BCD(b, c, d), ACD(a, c, d), ABD(a, b, d)"@,
{
    let texts = seq!["ABC(a, b, c)"@, "BCD(b, c, d)"@, "ACD(a, c, d)"@, "ABD(a, b, d)"@];
    assert(join_sep(texts.take(1), ", "@) == "ABC(a, b, c)"@);
    assert(join_sep(texts.take(2), ", "@) =~= "ABC(a, b, c), BCD(b, c, d)"@) by {
        assert(texts.take(2).drop_last() =~= texts.take(1));
        reveal_strlit(", ");
        reveal_strlit("ABC(a, b, c)");
        reveal_strlit("BCD(b, c, d)");
        reveal_strlit("ABC(a, b, c), BCD(b, c, d)");
    }
    assert(join_sep(texts.take(3), ", "@) =~= "ABC(a, b, c), BCD(b, c, d), ACD(a, c, d)"@) by {
        assert(texts.take(3).drop_last() =~= texts.take(2));
        reveal_strlit(", ");
        reveal_strlit("ABC(a, b, c), BCD(b, c, d)");
        reveal_strlit("ACD(a, c, d)");
        reveal_strlit("ABC(a, b, c), BCD(b, c, d), ACD(a, c, d)");
    }
    assert(join_sep(texts.take(4), ", "@) =~= "ABC(a, b, c), BCD(b, c, d), ACD(a, c, d), ABD(a, b, d)"@) by {
        assert(texts.take(4).drop_last() =~= texts.take(3));
        reveal_strlit(", ");
        reveal_strlit("ABC(a, b, c), BCD(b, c, d), ACD(a, c, d)");
        reveal_strlit("ABD(a, b, d)");
        reveal_strlit("ABC(a, b, c), BCD(b, c, d), ACD(a, c, d), ABD(a, b, d)");
    }
    assert(texts.take(4) =~= texts);
}

/// The rule of the LoomisWhitney4 program is its query text's.
#[verifier::spinoff_prover]
proof fn lemma_rule_loomis_whitney_4()
    ensures
        rule_text(QueryProgram::LoomisWhitney4.module_spec()) == written_rule(QueryProgram::LoomisWhitney4),
{
    lemma_atoms_loomis_whitney_4();
    lemma_joined_loomis_whitney_4();
    let m = QueryProgram::LoomisWhitney4.module_spec();
    assert(rule_text(m) =~= written_rule(QueryProgram::LoomisWhitney4)) by {
        reveal_strlit("lw4(a, b, c, d)");
        reveal_strlit(" :- ");
        reveal_strlit("ABC(a, b, c), BCD(b, c, d), ACD(a, c, d), ABD(a, b, d)");
        reveal_strlit(".");
        reveal_strlit("lw4(a, b, c, d) :- ABC(a, b, c), BCD(b, c, d), ACD(a, c, d), ABD(a, b, d).");
    }
}

/// The atoms of the RetailH03 program, each in query notation.
#[verifier::rlimit(60)]
#[verifier::spinoff_prover]
proof fn lemma_atoms_retail_h03()
    ensures
        atom_text(QueryProgram::RetailH03.module_spec().head) == "retail_h03_result(order_key, customer_key)"@,
        QueryProgram::RetailH03.module_spec().body.map_values(|a: (Seq<char>, Seq<Seq<char>>)| atom_text(a))
            == seq!["RetailH03Customer(customer_key, _customer_nation)"@, "RetailH03Orders(order_key, customer_key)"@, "RetailH03Lineitem(order_key, _part_key, _supplier_key, _line_number)"@],
{
    let m = QueryProgram::RetailH03.module_spec();
    assert(atom_text(m.head) =~= "retail_h03_result(order_key, customer_key)"@) by {
        reveal_strlit("(");
        reveal_strlit(")");
        reveal_strlit(", ");
        reveal_strlit("retail_h03_result");
        reveal_strlit("customer_key");
        reveal_strlit("order_key");
        reveal_strlit("retail_h03_result(order_key, customer_key)");
        reveal_with_fuel(join_sep, 3);
    }
    assert(atom_text(m.body[0]) =~= "RetailH03Customer(customer_key, _customer_nation)"@) by {
        reveal_strlit("(");
        reveal_strlit(")");
        reveal_strlit(", ");
        reveal_strlit("RetailH03Customer");
        reveal_strlit("_customer_nation");
        reveal_strlit("customer_key");
        reveal_strlit("RetailH03Customer(customer_key, _customer_nation)");
        reveal_with_fuel(join_sep, 3);
    }
    assert(atom_text(m.body[1]) =~= "RetailH03Orders(order_key, customer_key)"@) by {
        reveal_strlit("(");
        reveal_strlit(")");
        reveal_strlit(", ");
        reveal_strlit("RetailH03Orders");
        reveal_strlit("customer_key");
        reveal_strlit("order_key");
        reveal_strlit("RetailH03Orders(order_key, customer_key)");
        reveal_with_fuel(join_sep, 3);
    }
    assert(atom_text(m.body[2]) =~= "RetailH03Lineitem(order_key, _part_key, _supplier_key, _line_number)"@) by {
        reveal_strlit("(");
        reveal_strlit(")");
        reveal_strlit(", ");
        reveal_strlit("RetailH03Lineitem");
        reveal_strlit("_line_number");
        reveal_strlit("_part_key");
        reveal_strlit("_supplier_key");
        reveal_strlit("order_key");
        reveal_strlit("RetailH03Lineitem(order_key, _part_key, _supplier_key, _line_number)");
        reveal_with_fuel(join_sep, 5);
    }
    let texts = seq!["RetailH03Customer(customer_key, _customer_nation)"@, "RetailH03Orders(order_key, customer_key)"@, "RetailH03Lineitem(order_key, _part_key, _supplier_key, _line_number)"@];
    assert(m.body.map_values(|a: (Seq<char>, Seq<Seq<char>>)| atom_text(a)) =~= texts);
}

/// The atoms of the RetailH03 program joined by commas.
#[verifier::rlimit(60)]
#[verifier::spinoff_prover]
proof fn lemma_joined_retail_h03()
    ensures
        join_sep(seq!["RetailH03Customer(customer_key, _customer_nation)"@, "RetailH03Orders(order_key, customer_key)"@, "RetailH03Lineitem(order_key, _part_key, _supplier_key, _line_number)"@], ", "@) == "RetailH03Customer(customer_key, _customer_nation), RetailH03Orders(order_key, customer_key), RetailH03Lineitem(order_key, _part_key, _supplier_key, _line_number)"@,
{
    let texts = seq!["RetailH03Customer(customer_key, _customer_nation)"@, "RetailH03Orders(order_key, customer_key)"@, "RetailH03Lineitem(order_key, _part_key, _supplier_key, _line_number)"@];
    assert(join_sep(texts.take(1), ", "@) == "RetailH03Customer(customer_key, _customer_nation)"@);
    assert(join_sep(texts.take(2), ", "@) =~= "RetailH03Customer(customer_key, _customer_nation), RetailH03Orders(order_key, customer_key)"@) by {
        assert(texts.take(2).drop_last() =~= texts.take(1));
        reveal_strlit(", ");
        reveal_strlit("RetailH03Customer(customer_key, _customer_nation)");
        reveal_strlit("RetailH03Orders(order_key, customer_key)");
        reveal_strlit("RetailH03Customer(customer_key, _customer_nation), RetailH03Orders(order_key, customer_key)");
    }
    assert(join_sep(texts.take(3), ", "@) =~= "RetailH03Customer(customer_key, _customer_nation), RetailH03Orders(order_key, customer_key), RetailH03Lineitem(order_key, _part_key, _supplier_key, _line_number)"@) by {
        assert(texts.take(3).drop_last() =~= texts.take(2));
        reveal_strlit(", ");
        reveal_strlit("RetailH03Customer(customer_key, _customer_nation), RetailH03Orders(order_key, customer_key)");
        reveal_strlit("RetailH03Lineitem(order_key, _part_key, _supplier_key, _line_number)");
        reveal_strlit("RetailH03Customer(customer_key, _customer_nation), RetailH03Orders(order_key, customer_key), RetailH03Lineitem(order_key, _part_key, _supplier_key, _line_number)");
    }
    assert(texts.take(3) =~= texts);
}

/// The rule of the RetailH03 program is its query text's.
#[verifier::spinoff_prover]
proof fn lemma_rule_retail_h03()
    ensures
        rule_text(QueryProgram::RetailH03.module_spec()) == written_rule(QueryProgram::RetailH03),
{
    lemma_atoms_retail_h03();
    lemma_joined_retail_h03();
    let m = QueryProgram::RetailH03.module_spec();
    assert(rule_text(m) =~= written_rule(QueryProgram::RetailH03)) by {
        reveal_strlit("retail_h03_result(order_key, customer_key)");
        reveal_strlit(" :- ");
        reveal_strlit("RetailH03Customer(customer_key, _customer_nation), RetailH03Orders(order_key, customer_key), RetailH03Lineitem(order_key, _part_key, _supplier_key, _line_number)");
        reveal_strlit(".");
        reveal_strlit("retail_h03_result(order_key, customer_key) :- RetailH03Customer(customer_key, _customer_nation), RetailH03Orders(order_key, customer_key), RetailH03Lineitem(order_key, _part_key, _supplier_key, _line_number).");
    }
}

/// The atoms of the RetailH05 program, each in query notation.
#[verifier::rlimit(60)]
#[verifier::spinoff_prover]
proof fn lemma_atoms_retail_h05()
    ensures
        atom_text(QueryProgram::RetailH05.module_spec().head) == "retail_h05_result(order_key, supplier_key, nation_key)"@,
        QueryProgram::RetailH05.module_spec().body.map_values(|a: (Seq<char>, Seq<Seq<char>>)| atom_text(a))
            == seq!["RetailH05Customer(customer_key, nation_key)"@, "RetailH05Orders(order_key, customer_key)"@, "RetailH05Lineitem(order_key, _part_key, supplier_key, _line_number)"@, "RetailH05Supplier(supplier_key, nation_key)"@, "RetailH05Nation(nation_key, region_key)"@, "RetailH05Region(region_key)"@],
{
    let m = QueryProgram::RetailH05.module_spec();
    assert(atom_text(m.head) =~= "retail_h05_result(order_key, supplier_key, nation_key)"@) by {
        reveal_strlit("(");
        reveal_strlit(")");
        reveal_strlit(", ");
        reveal_strlit("retail_h05_result");
        reveal_strlit("nation_key");
        reveal_strlit("order_key");
        reveal_strlit("supplier_key");
        reveal_strlit("retail_h05_result(order_key, supplier_key, nation_key)");
        reveal_with_fuel(join_sep, 4);
    }
    assert(atom_text(m.body[0]) =~= "RetailH05Customer(customer_key, nation_key)"@) by {
        reveal_strlit("(");
        reveal_strlit(")");
        reveal_strlit(", ");
        reveal_strlit("RetailH05Customer");
        reveal_strlit("customer_key");
        reveal_strlit("nation_key");
        reveal_strlit("RetailH05Customer(customer_key, nation_key)");
        reveal_with_fuel(join_sep, 3);
    }
    assert(atom_text(m.body[1]) =~= "RetailH05Orders(order_key, customer_key)"@) by {
        reveal_strlit("(");
        reveal_strlit(")");
        reveal_strlit(", ");
        reveal_strlit("RetailH05Orders");
        reveal_strlit("customer_key");
        reveal_strlit("order_key");
        reveal_strlit("RetailH05Orders(order_key, customer_key)");
        reveal_with_fuel(join_sep, 3);
    }
    assert(atom_text(m.body[2]) =~= "RetailH05Lineitem(order_key, _part_key, supplier_key, _line_number)"@) by {
        reveal_strlit("(");
        reveal_strlit(")");
        reveal_strlit(", ");
        reveal_strlit("RetailH05Lineitem");
        reveal_strlit("_line_number");
        reveal_strlit("_part_key");
        reveal_strlit("order_key");
        reveal_strlit("supplier_key");
        reveal_strlit("RetailH05Lineitem(order_key, _part_key, supplier_key, _line_number)");
        reveal_with_fuel(join_sep, 5);
    }
    assert(atom_text(m.body[3]) =~= "RetailH05Supplier(supplier_key, nation_key)"@) by {
        reveal_strlit("(");
        reveal_strlit(")");
        reveal_strlit(", ");
        reveal_strlit("RetailH05Supplier");
        reveal_strlit("nation_key");
        reveal_strlit("supplier_key");
        reveal_strlit("RetailH05Supplier(supplier_key, nation_key)");
        reveal_with_fuel(join_sep, 3);
    }
    assert(atom_text(m.body[4]) =~= "RetailH05Nation(nation_key, region_key)"@) by {
        reveal_strlit("(");
        reveal_strlit(")");
        reveal_strlit(", ");
        reveal_strlit("RetailH05Nation");
        reveal_strlit("nation_key");
        reveal_strlit("region_key");
        reveal_strlit("RetailH05Nation(nation_key, region_key)");
        reveal_with_fuel(join_sep, 3);
    }
    assert(atom_text(m.body[5]) =~= "RetailH05Region(region_key)"@) by {
        reveal_strlit("(");
        reveal_strlit(")");
        reveal_strlit(", ");
        reveal_strlit("RetailH05Region");
        reveal_strlit("region_key");
        reveal_strlit("RetailH05Region(region_key)");
        reveal_with_fuel(join_sep, 2);
    }
    let texts = seq!["RetailH05Customer(customer_key, nation_key)"@, "RetailH05Orders(order_key, customer_key)"@, "RetailH05Lineitem(order_key, _part_key, supplier_key, _line_number)"@, "RetailH05Supplier(supplier_key, nation_key)"@, "RetailH05Nation(nation_key, region_key)"@, "RetailH05Region(region_key)"@];
    assert(m.body.map_values(|a: (Seq<char>, Seq<Seq<char>>)| atom_text(a)) =~= texts);
}

/// The atoms of the RetailH05 program joined by commas.
#[verifier::rlimit(60)]
#[verifier::spinoff_prover]
proof fn lemma_joined_retail_h05()
    ensures
        join_sep(seq!["RetailH05Customer(customer_key, nation_key)"@, "RetailH05Orders(order_key, customer_key)"@, "RetailH05Lineitem(order_key, _part_key, supplier_key, _line_number)"@, "RetailH05Supplier(supplier_key, nation_key)"@, "RetailH05Nation(nation_key, region_key)"@, "RetailH05Region(region_key)"@], ", "@) == "RetailH05Customer(customer_key, nation_key), RetailH05Orders(order_key, customer_key), RetailH05Lineitem(order_key, _part_key, supplier_key, _line_number), RetailH05Supplier(supplier_key, nation_key), RetailH05Nation(nation_key, region_key), RetailH05Region(region_key)"@,
{
    let texts = seq!["RetailH05Customer(customer_key, nation_key)"@, "RetailH05Orders(order_key, customer_key)"@, "RetailH05Lineitem(order_key, _part_key, supplier_key, _line_number)"@, "RetailH05Supplier(supplier_key, nation_key)"@, "RetailH05Nation(nation_key, region_key)"@, "RetailH05Region(region_key)"@];
    assert(join_sep(texts.take(1), ", "@) == "RetailH05Customer(customer_key, nation_key)"@);
    assert(join_sep(texts.take(2), ", "@) =~= "RetailH05Customer(customer_key, nation_key), RetailH05Orders(order_key, customer_key)"@) by {
        assert(texts.take(2).drop_last() =~= texts.take(1));
        reveal_strlit(", ");
        reveal_strlit("RetailH05Customer(customer_key, nation_key)");
        reveal_strlit("RetailH05Orders(order_key, customer_key)");
        reveal_strlit("RetailH05Customer(customer_key, nation_key), RetailH05Orders(order_key, customer_key)");
    }
    assert(join_sep(texts.take(3), ", "@) =~= "RetailH05Customer(customer_key, nation_key), RetailH05Orders(order_key, customer_key), RetailH05Lineitem(order_key, _part_key, supplier_key, _line_number)"@) by {
        assert(texts.take(3).drop_last() =~= texts.take(2));
        reveal_strlit(", ");
        reveal_strlit("RetailH05Customer(customer_key, nation_key), RetailH05Orders(order_key, customer_key)");
        reveal_strlit("RetailH05Lineitem(order_key, _part_key, supplier_key, _line_number)");
        reveal_strlit("RetailH05Customer(customer_key, nation_key), RetailH05Orders(order_key, customer_key), RetailH05Lineitem(order_key, _part_key, supplier_key, _line_number)");
    }
    assert(join_sep(texts.take(4), ", "@) =~= "RetailH05Customer(customer_key, nation_key), RetailH05Orders(order_key, customer_key), RetailH05Lineitem(order_key, _part_key, supplier_key, _line_number), RetailH05Supplier(supplier_key, nation_key)"@) by {
        assert(texts.take(4).drop_last() =~= texts.take(3));
        reveal_strlit(", ");
        reveal_strlit("RetailH05Customer(customer_key, nation_key), RetailH05Orders(order_key, customer_key), RetailH05Lineitem(order_key, _part_key, supplier_key, _line_number)");
        reveal_strlit("RetailH05Supplier(supplier_key, nation_key)");
        reveal_strlit("RetailH05Customer(customer_key, nation_key), RetailH05Orders(order_key, customer_key), RetailH05Lineitem(order_key, _part_key, supplier_key, _line_number), RetailH05Supplier(supplier_key, nation_key)");
    }
    assert(join_sep(texts.take(5), ", "@) =~= "RetailH05Customer(customer_key, nation_key), RetailH05Orders(order_key, customer_key), RetailH05Lineitem(order_key, _part_key, supplier_key, _line_number), RetailH05Supplier(supplier_key, nation_key), RetailH05Nation(nation_key, region_key)"@) by {
        assert(texts.take(5).drop_last() =~= texts.take(4));
        reveal_strlit(", ");
        reveal_strlit("RetailH05Customer(customer_key, nation_key), RetailH05Orders(order_key, customer_key), RetailH05Lineitem(order_key, _part_key, supplier_key, _line_number), RetailH05Supplier(supplier_key, nation_key)");
        reveal_strlit("RetailH05Nation(nation_key, region_key)");
        reveal_strlit("RetailH05Customer(customer_key, nation_key), RetailH05Orders(order_key, customer_key), RetailH05Lineitem(order_key, _part_key, supplier_key, _line_number), RetailH05Supplier(supplier_key, nation_key), RetailH05Nation(nation_key, region_key)");
    }
    assert(join_sep(texts.take(6), ", "@) =~= "RetailH05Customer(customer_key, nation_key), RetailH05Orders(order_key, customer_key), RetailH05Lineitem(order_key, _part_key, supplier_key, _line_number), RetailH05Supplier(supplier_key, nation_key), RetailH05Nation(nation_key, region_key), RetailH05Region(region_key)"@) by {
        assert(texts.take(6).drop_last() =~= texts.take(5));
        reveal_strlit(", ");
        reveal_strlit("RetailH05Customer(customer_key, nation_key), RetailH05Orders(order_key, customer_key), RetailH05Lineitem(order_key, _part_key, supplier_key, _line_number), RetailH05Supplier(supplier_key, nation_key), RetailH05Nation(nation_key, region_key)");
        reveal_strlit("RetailH05Region(region_key)");
        reveal_strlit("RetailH05Customer(customer_key, nation_key), RetailH05Orders(order_key, customer_key), RetailH05Lineitem(order_key, _part_key, supplier_key, _line_number), RetailH05Supplier(supplier_key, nation_key), RetailH05Nation(nation_key, region_key), RetailH05Region(region_key)");
    }
    assert(texts.take(6) =~= texts);
}

/// The rule of the RetailH05 program is its query text's.
#[verifier::spinoff_prover]
proof fn lemma_rule_retail_h05()
    ensures
        rule_text(QueryProgram::RetailH05.module_spec()) == written_rule(QueryProgram::RetailH05),
{
    lemma_atoms_retail_h05();
    lemma_joined_retail_h05();
    let m = QueryProgram::RetailH05.module_spec();
    assert(rule_text(m) =~= written_rule(QueryProgram::RetailH05)) by {
        reveal_strlit("retail_h05_result(order_key, supplier_key, nation_key)");
        reveal_strlit(" :- ");
        reveal_strlit("RetailH05Customer(customer_key, nation_key), RetailH05Orders(order_key, customer_key), RetailH05Lineitem(order_key, _part_key, supplier_key, _line_number), RetailH05Supplier(supplier_key, nation_key), RetailH05Nation(nation_key, region_key), RetailH05Region(region_key)");
        reveal_strlit(".");
        reveal_strlit("retail_h05_result(order_key, supplier_key, nation_key) :- RetailH05Customer(customer_key, nation_key), RetailH05Orders(order_key, customer_key), RetailH05Lineitem(order_key, _part_key, supplier_key, _line_number), RetailH05Supplier(supplier_key, nation_key), RetailH05Nation(nation_key, region_key), RetailH05Region(region_key).");
    }
}

/// The atoms of the RetailH07 program, each in query notation.
#[verifier::rlimit(60)]
#[verifier::spinoff_prover]
proof fn lemma_atoms_retail_h07()
    ensures
        atom_text(QueryProgram::RetailH07.module_spec().head) == "retail_h07_result(order_key, supplier_nation, customer_nation)"@,
        QueryProgram::RetailH07.module_spec().body.map_values(|a: (Seq<char>, Seq<Seq<char>>)| atom_text(a))
            == seq!["RetailH07Supplier(supplier_key, supplier_nation)"@, "RetailH07Lineitem(order_key, _part_key, supplier_key, _line_number)"@, "RetailH07Orders(order_key, customer_key)"@, "RetailH07Customer(customer_key, customer_nation)"@, "RetailH07Nation(supplier_nation, _supplier_region)"@, "RetailH07Nation(customer_nation, _customer_region)"@],
{
    let m = QueryProgram::RetailH07.module_spec();
    assert(atom_text(m.head) =~= "retail_h07_result(order_key, supplier_nation, customer_nation)"@) by {
        reveal_strlit("(");
        reveal_strlit(")");
        reveal_strlit(", ");
        reveal_strlit("retail_h07_result");
        reveal_strlit("customer_nation");
        reveal_strlit("order_key");
        reveal_strlit("supplier_nation");
        reveal_strlit("retail_h07_result(order_key, supplier_nation, customer_nation)");
        reveal_with_fuel(join_sep, 4);
    }
    assert(atom_text(m.body[0]) =~= "RetailH07Supplier(supplier_key, supplier_nation)"@) by {
        reveal_strlit("(");
        reveal_strlit(")");
        reveal_strlit(", ");
        reveal_strlit("RetailH07Supplier");
        reveal_strlit("supplier_key");
        reveal_strlit("supplier_nation");
        reveal_strlit("RetailH07Supplier(supplier_key, supplier_nation)");
        reveal_with_fuel(join_sep, 3);
    }
    assert(atom_text(m.body[1]) =~= "RetailH07Lineitem(order_key, _part_key, supplier_key, _line_number)"@) by {
        reveal_strlit("(");
        reveal_strlit(")");
        reveal_strlit(", ");
        reveal_strlit("RetailH07Lineitem");
        reveal_strlit("_line_number");
        reveal_strlit("_part_key");
        reveal_strlit("order_key");
        reveal_strlit("supplier_key");
        reveal_strlit("RetailH07Lineitem(order_key, _part_key, supplier_key, _line_number)");
        reveal_with_fuel(join_sep, 5);
    }
    assert(atom_text(m.body[2]) =~= "RetailH07Orders(order_key, customer_key)"@) by {
        reveal_strlit("(");
        reveal_strlit(")");
        reveal_strlit(", ");
        reveal_strlit("RetailH07Orders");
        reveal_strlit("customer_key");
        reveal_strlit("order_key");
        reveal_strlit("RetailH07Orders(order_key, customer_key)");
        reveal_with_fuel(join_sep, 3);
    }
    assert(atom_text(m.body[3]) =~= "RetailH07Customer(customer_key, customer_nation)"@) by {
        reveal_strlit("(");
        reveal_strlit(")");
        reveal_strlit(", ");
        reveal_strlit("RetailH07Customer");
        reveal_strlit("customer_key");
        reveal_strlit("customer_nation");
        reveal_strlit("RetailH07Customer(customer_key, customer_nation)");
        reveal_with_fuel(join_sep, 3);
    }
    assert(atom_text(m.body[4]) =~= "RetailH07Nation(supplier_nation, _supplier_region)"@) by {
        reveal_strlit("(");
        reveal_strlit(")");
        reveal_strlit(", ");
        reveal_strlit("RetailH07Nation");
        reveal_strlit("_supplier_region");
        reveal_strlit("supplier_nation");
        reveal_strlit("RetailH07Nation(supplier_nation, _supplier_region)");
        reveal_with_fuel(join_sep, 3);
    }
    assert(atom_text(m.body[5]) =~= "RetailH07Nation(customer_nation, _customer_region)"@) by {
        reveal_strlit("(");
        reveal_strlit(")");
        reveal_strlit(", ");
        reveal_strlit("RetailH07Nation");
        reveal_strlit("_customer_region");
        reveal_strlit("customer_nation");
        reveal_strlit("RetailH07Nation(customer_nation, _customer_region)");
        reveal_with_fuel(join_sep, 3);
    }
    let texts = seq!["RetailH07Supplier(supplier_key, supplier_nation)"@, "RetailH07Lineitem(order_key, _part_key, supplier_key, _line_number)"@, "RetailH07Orders(order_key, customer_key)"@, "RetailH07Customer(customer_key, customer_nation)"@, "RetailH07Nation(supplier_nation, _supplier_region)"@, "RetailH07Nation(customer_nation, _customer_region)"@];
    assert(m.body.map_values(|a: (Seq<char>, Seq<Seq<char>>)| atom_text(a)) =~= texts);
}

/// The atoms of the RetailH07 program joined by commas.
#[verifier::rlimit(60)]
#[verifier::spinoff_prover]
proof fn lemma_joined_retail_h07()
    ensures
        join_sep(seq!["RetailH07Supplier(supplier_key, supplier_nation)"@, "RetailH07Lineitem(order_key, _part_key, supplier_key, _line_number)"@, "RetailH07Orders(order_key, customer_key)"@, "RetailH07Customer(customer_key, customer_nation)"@, "RetailH07Nation(supplier_nation, _supplier_region)"@, "RetailH07Nation(customer_nation, _customer_region)"@], ", "@) == "RetailH07Supplier(supplier_key, supplier_nation), RetailH07Lineitem(order_key, _part_key, supplier_key, _line_number), RetailH07Orders(order_key, customer_key), RetailH07Customer(customer_key, customer_nation), RetailH07Nation(supplier_nation, _supplier_region), RetailH07Nation(customer_nation, _customer_region)"@,
{
    let texts = seq!["RetailH07Supplier(supplier_key, supplier_nation)"@, "RetailH07Lineitem(order_key, _part_key, supplier_key, _line_number)"@, "RetailH07Orders(order_key, customer_key)"@, "RetailH07Customer(customer_key, customer_nation)"@, "RetailH07Nation(supplier_nation, _supplier_region)"@, "RetailH07Nation(customer_nation, _customer_region)"@];
    assert(join_sep(texts.take(1), ", "@) == "RetailH07Supplier(supplier_key, supplier_nation)"@);
    assert(join_sep(texts.take(2), ", "@) =~= "RetailH07Supplier(supplier_key, supplier_nation), RetailH07Lineitem(order_key, _part_key, supplier_key, _line_number)"@) by {
        assert(texts.take(2).drop_last() =~= texts.take(1));
        reveal_strlit(", ");
        reveal_strlit("RetailH07Supplier(supplier_key, supplier_nation)");
        reveal_strlit("RetailH07Lineitem(order_key, _part_key, supplier_key, _line_number)");
        reveal_strlit("RetailH07Supplier(supplier_key, supplier_nation), RetailH07Lineitem(order_key, _part_key, supplier_key, _line_number)");
    }
    assert(join_sep(texts.take(3), ", "@) =~= "RetailH07Supplier(supplier_key, supplier_nation), RetailH07Lineitem(order_key, _part_key, supplier_key, _line_number), RetailH07Orders(order_key, customer_key)"@) by {
        assert(texts.take(3).drop_last() =~= texts.take(2));
        reveal_strlit(", ");
        reveal_strlit("RetailH07Supplier(supplier_key, supplier_nation), RetailH07Lineitem(order_key, _part_key, supplier_key, _line_number)");
        reveal_strlit("RetailH07Orders(order_key, customer_key)");
        reveal_strlit("RetailH07Supplier(supplier_key, supplier_nation), RetailH07Lineitem(order_key, _part_key, supplier_key, _line_number), RetailH07Orders(order_key, customer_key)");
    }
    assert(join_sep(texts.take(4), ", "@) =~= "RetailH07Supplier(supplier_key, supplier_nation), RetailH07Lineitem(order_key, _part_key, supplier_key, _line_number), RetailH07Orders(order_key, customer_key), RetailH07Customer(customer_key, customer_nation)"@) by {
        assert(texts.take(4).drop_last() =~= texts.take(3));
        reveal_strlit(", ");
        reveal_strlit("RetailH07Supplier(supplier_key, supplier_nation), RetailH07Lineitem(order_key, _part_key, supplier_key, _line_number), RetailH07Orders(order_key, customer_key)");
        reveal_strlit("RetailH07Customer(customer_key, customer_nation)");
        reveal_strlit("RetailH07Supplier(supplier_key, supplier_nation), RetailH07Lineitem(order_key, _part_key, supplier_key, _line_number), RetailH07Orders(order_key, customer_key), RetailH07Customer(customer_key, customer_nation)");
    }
    assert(join_sep(texts.take(5), ", "@) =~= "RetailH07Supplier(supplier_key, supplier_nation), RetailH07Lineitem(order_key, _part_key, supplier_key, _line_number), RetailH07Orders(order_key, customer_key), RetailH07Customer(customer_key, customer_nation), RetailH07Nation(supplier_nation, _supplier_region)"@) by {
        assert(texts.take(5).drop_last() =~= texts.take(4));
        reveal_strlit(", ");
        reveal_strlit("RetailH07Supplier(supplier_key, supplier_nation), RetailH07Lineitem(order_key, _part_key, supplier_key, _line_number), RetailH07Orders(order_key, customer_key), RetailH07Customer(customer_key, customer_nation)");
        reveal_strlit("RetailH07Nation(supplier_nation, _supplier_region)");
        reveal_strlit("RetailH07Supplier(supplier_key, supplier_nation), RetailH07Lineitem(order_key, _part_key, supplier_key, _line_number), RetailH07Orders(order_key, customer_key), RetailH07Customer(customer_key, customer_nation), RetailH07Nation(supplier_nation, _supplier_region)");
    }
    assert(join_sep(texts.take(6), ", "@) =~= "RetailH07Supplier(supplier_key, supplier_nation), RetailH07Lineitem(order_key, _part_key, supplier_key, _line_number), RetailH07Orders(order_key, customer_key), RetailH07Customer(customer_key, customer_nation), RetailH07Nation(supplier_nation, _supplier_region), RetailH07Nation(customer_nation, _customer_region)"@) by {
        assert(texts.take(6).drop_last() =~= texts.take(5));
        reveal_strlit(", ");
        reveal_strlit("RetailH07Supplier(supplier_key, supplier_nation), RetailH07Lineitem(order_key, _part_key, supplier_key, _line_number), RetailH07Orders(order_key, customer_key), RetailH07Customer(customer_key, customer_nation), RetailH07Nation(supplier_nation, _supplier_region)");
        reveal_strlit("RetailH07Nation(customer_nation, _customer_region)");
        reveal_strlit("RetailH07Supplier(supplier_key, supplier_nation), RetailH07Lineitem(order_key, _part_key, supplier_key, _line_number), RetailH07Orders(order_key, customer_key), RetailH07Customer(customer_key, customer_nation), RetailH07Nation(supplier_nation, _supplier_region), RetailH07Nation(customer_nation, _customer_region)");
    }
    assert(texts.take(6) =~= texts);
}

/// The rule of the RetailH07 program is its query text's.
#[verifier::spinoff_prover]
proof fn lemma_rule_retail_h07()
    ensures
        rule_text(QueryProgram::RetailH07.module_spec()) == written_rule(QueryProgram::RetailH07),
{
    lemma_atoms_retail_h07();
    lemma_joined_retail_h07();
    let m = QueryProgram::RetailH07.module_spec();
    assert(rule_text(m) =~= written_rule(QueryProgram::RetailH07)) by {
        reveal_strlit("retail_h07_result(order_key, supplier_nation, customer_nation)");
        reveal_strlit(" :- ");
        reveal_strlit("RetailH07Supplier(supplier_key, supplier_nation), RetailH07Lineitem(order_key, _part_key, supplier_key, _line_number), RetailH07Orders(order_key, customer_key), RetailH07Customer(customer_key, customer_nation), RetailH07Nation(supplier_nation, _supplier_region), RetailH07Nation(customer_nation, _customer_region)");
        reveal_strlit(".");
        reveal_strlit("retail_h07_result(order_key, supplier_nation, customer_nation) :- RetailH07Supplier(supplier_key, supplier_nation), RetailH07Lineitem(order_key, _part_key, supplier_key, _line_number), RetailH07Orders(order_key, customer_key), RetailH07Customer(customer_key, customer_nation), RetailH07Nation(supplier_nation, _supplier_region), RetailH07Nation(customer_nation, _customer_region).");
    }
}

/// The atoms of the RetailH08 program, each in query notation.
#[verifier::rlimit(60)]
#[verifier::spinoff_prover]
proof fn lemma_atoms_retail_h08()
    ensures
        atom_text(QueryProgram::RetailH08.module_spec().head) == "retail_h08_result(order_key, part_key, supplier_key)"@,
        QueryProgram::RetailH08.module_spec().body.map_values(|a: (Seq<char>, Seq<Seq<char>>)| atom_text(a))
            == seq!["RetailH08Lineitem(order_key, part_key, supplier_key, _line_number)"@, "RetailH08Part(part_key)"@, "RetailH08Supplier(supplier_key, supplier_nation)"@, "RetailH08Orders(order_key, customer_key)"@, "RetailH08Customer(customer_key, customer_nation)"@, "RetailH08Nation(customer_nation, customer_region)"@, "RetailH08Region(customer_region)"@, "RetailH08Nation(supplier_nation, _supplier_region)"@],
{
    let m = QueryProgram::RetailH08.module_spec();
    assert(atom_text(m.head) =~= "retail_h08_result(order_key, part_key, supplier_key)"@) by {
        reveal_strlit("(");
        reveal_strlit(")");
        reveal_strlit(", ");
        reveal_strlit("retail_h08_result");
        reveal_strlit("order_key");
        reveal_strlit("part_key");
        reveal_strlit("supplier_key");
        reveal_strlit("retail_h08_result(order_key, part_key, supplier_key)");
        reveal_with_fuel(join_sep, 4);
    }
    assert(atom_text(m.body[0]) =~= "RetailH08Lineitem(order_key, part_key, supplier_key, _line_number)"@) by {
        reveal_strlit("(");
        reveal_strlit(")");
        reveal_strlit(", ");
        reveal_strlit("RetailH08Lineitem");
        reveal_strlit("_line_number");
        reveal_strlit("order_key");
        reveal_strlit("part_key");
        reveal_strlit("supplier_key");
        reveal_strlit("RetailH08Lineitem(order_key, part_key, supplier_key, _line_number)");
        reveal_with_fuel(join_sep, 5);
    }
    assert(atom_text(m.body[1]) =~= "RetailH08Part(part_key)"@) by {
        reveal_strlit("(");
        reveal_strlit(")");
        reveal_strlit(", ");
        reveal_strlit("RetailH08Part");
        reveal_strlit("part_key");
        reveal_strlit("RetailH08Part(part_key)");
        reveal_with_fuel(join_sep, 2);
    }
    assert(atom_text(m.body[2]) =~= "RetailH08Supplier(supplier_key, supplier_nation)"@) by {
        reveal_strlit("(");
        reveal_strlit(")");
        reveal_strlit(", ");
        reveal_strlit("RetailH08Supplier");
        reveal_strlit("supplier_key");
        reveal_strlit("supplier_nation");
        reveal_strlit("RetailH08Supplier(supplier_key, supplier_nation)");
        reveal_with_fuel(join_sep, 3);
    }
    assert(atom_text(m.body[3]) =~= "RetailH08Orders(order_key, customer_key)"@) by {
        reveal_strlit("(");
        reveal_strlit(")");
        reveal_strlit(", ");
        reveal_strlit("RetailH08Orders");
        reveal_strlit("customer_key");
        reveal_strlit("order_key");
        reveal_strlit("RetailH08Orders(order_key, customer_key)");
        reveal_with_fuel(join_sep, 3);
    }
    assert(atom_text(m.body[4]) =~= "RetailH08Customer(customer_key, customer_nation)"@) by {
        reveal_strlit("(");
        reveal_strlit(")");
        reveal_strlit(", ");
        reveal_strlit("RetailH08Customer");
        reveal_strlit("customer_key");
        reveal_strlit("customer_nation");
        reveal_strlit("RetailH08Customer(customer_key, customer_nation)");
        reveal_with_fuel(join_sep, 3);
    }
    assert(atom_text(m.body[5]) =~= "RetailH08Nation(customer_nation, customer_region)"@) by {
        reveal_strlit("(");
        reveal_strlit(")");
        reveal_strlit(", ");
        reveal_strlit("RetailH08Nation");
        reveal_strlit("customer_nation");
        reveal_strlit("customer_region");
        reveal_strlit("RetailH08Nation(customer_nation, customer_region)");
        reveal_with_fuel(join_sep, 3);
    }
    assert(atom_text(m.body[6]) =~= "RetailH08Region(customer_region)"@) by {
        reveal_strlit("(");
        reveal_strlit(")");
        reveal_strlit(", ");
        reveal_strlit("RetailH08Region");
        reveal_strlit("customer_region");
        reveal_strlit("RetailH08Region(customer_region)");
        reveal_with_fuel(join_sep, 2);
    }
    assert(atom_text(m.body[7]) =~= "RetailH08Nation(supplier_nation, _supplier_region)"@) by {
        reveal_strlit("(");
        reveal_strlit(")");
        reveal_strlit(", ");
        reveal_strlit("RetailH08Nation");
        reveal_strlit("_supplier_region");
        reveal_strlit("supplier_nation");
        reveal_strlit("RetailH08Nation(supplier_nation, _supplier_region)");
        reveal_with_fuel(join_sep, 3);
    }
    let texts = seq!["RetailH08Lineitem(order_key, part_key, supplier_key, _line_number)"@, "RetailH08Part(part_key)"@, "RetailH08Supplier(supplier_key, supplier_nation)"@, "RetailH08Orders(order_key, customer_key)"@, "RetailH08Customer(customer_key, customer_nation)"@, "RetailH08Nation(customer_nation, customer_region)"@, "RetailH08Region(customer_region)"@, "RetailH08Nation(supplier_nation, _supplier_region)"@];
    assert(m.body.map_values(|a: (Seq<char>, Seq<Seq<char>>)| atom_text(a)) =~= texts);
}

/// The atoms of the RetailH08 program joined by commas.
#[verifier::rlimit(60)]
#[verifier::spinoff_prover]
proof fn lemma_joined_retail_h08()
    ensures
        join_sep(seq!["RetailH08Lineitem(order_key, part_key, supplier_key, _line_number)"@, "RetailH08Part(part_key)"@, "RetailH08Supplier(supplier_key, supplier_nation)"@, "RetailH08Orders(order_key, customer_key)"@, "RetailH08Customer(customer_key, customer_nation)"@, "RetailH08Nation(customer_nation, customer_region)"@, "RetailH08Region(customer_region)"@, "RetailH08Nation(supplier_nation, _supplier_region)"@], ", "@) == "RetailH08Lineitem(order_key, part_key, supplier_key, _line_number), RetailH08Part(part_key), RetailH08Supplier(supplier_key, supplier_nation), RetailH08Orders(order_key, customer_key), RetailH08Customer(customer_key, customer_nation), RetailH08Nation(customer_nation, customer_region), RetailH08Region(customer_region), RetailH08Nation(supplier_nation, _supplier_region)"@,
{
    let texts = seq!["RetailH08Lineitem(order_key, part_key, supplier_key, _line_number)"@, "RetailH08Part(part_key)"@, "RetailH08Supplier(supplier_key, supplier_nation)"@, "RetailH08Orders(order_key, customer_key)"@, "RetailH08Customer(customer_key, customer_nation)"@, "RetailH08Nation(customer_nation, customer_region)"@, "RetailH08Region(customer_region)"@, "RetailH08Nation(supplier_nation, _supplier_region)"@];
    assert(join_sep(texts.take(1), ", "@) == "RetailH08Lineitem(order_key, part_key, supplier_key, _line_number)"@);
    assert(join_sep(texts.take(2), ", "@) =~= "RetailH08Lineitem(order_key, part_key, supplier_key, _line_number), RetailH08Part(part_key)"@) by {
        assert(texts.take(2).drop_last() =~= texts.take(1));
        reveal_strlit(", ");
        reveal_strlit("RetailH08Lineitem(order_key, part_key, supplier_key, _line_number)");
        reveal_strlit("RetailH08Part(part_key)");
        reveal_strlit("RetailH08Lineitem(order_key, part_key, supplier_key, _line_number), RetailH08Part(part_key)");
    }
    assert(join_sep(texts.take(3), ", "@) =~= "RetailH08Lineitem(order_key, part_key, supplier_key, _line_number), RetailH08Part(part_key), RetailH08Supplier(supplier_key, supplier_nation)"@) by {
        assert(texts.take(3).drop_last() =~= texts.take(2));
        reveal_strlit(", ");
        reveal_strlit("RetailH08Lineitem(order_key, part_key, supplier_key, _line_number), RetailH08Part(part_key)");
        reveal_strlit("RetailH08Supplier(supplier_key, supplier_nation)");
        reveal_strlit("RetailH08Lineitem(order_key, part_key, supplier_key, _line_number), RetailH08Part(part_key), RetailH08Supplier(supplier_key, supplier_nation)");
    }
    assert(join_sep(texts.take(4), ", "@) =~= "RetailH08Lineitem(order_key, part_key, supplier_key, _line_number), RetailH08Part(part_key), RetailH08Supplier(supplier_key, supplier_nation), RetailH08Orders(order_key, customer_key)"@) by {
        assert(texts.take(4).drop_last() =~= texts.take(3));
        reveal_strlit(", ");
        reveal_strlit("RetailH08Lineitem(order_key, part_key, supplier_key, _line_number), RetailH08Part(part_key), RetailH08Supplier(supplier_key, supplier_nation)");
        reveal_strlit("RetailH08Orders(order_key, customer_key)");
        reveal_strlit("RetailH08Lineitem(order_key, part_key, supplier_key, _line_number), RetailH08Part(part_key), RetailH08Supplier(supplier_key, supplier_nation), RetailH08Orders(order_key, customer_key)");
    }
    assert(join_sep(texts.take(5), ", "@) =~= "RetailH08Lineitem(order_key, part_key, supplier_key, _line_number), RetailH08Part(part_key), RetailH08Supplier(supplier_key, supplier_nation), RetailH08Orders(order_key, customer_key), RetailH08Customer(customer_key, customer_nation)"@) by {
        assert(texts.take(5).drop_last() =~= texts.take(4));
        reveal_strlit(", ");
        reveal_strlit("RetailH08Lineitem(order_key, part_key, supplier_key, _line_number), RetailH08Part(part_key), RetailH08Supplier(supplier_key, supplier_nation), RetailH08Orders(order_key, customer_key)");
        reveal_strlit("RetailH08Customer(customer_key, customer_nation)");
        reveal_strlit("RetailH08Lineitem(order_key, part_key, supplier_key, _line_number), RetailH08Part(part_key), RetailH08Supplier(supplier_key, supplier_nation), RetailH08Orders(order_key, customer_key), RetailH08Customer(customer_key, customer_nation)");
    }
    assert(join_sep(texts.take(6), ", "@) =~= "RetailH08Lineitem(order_key, part_key, supplier_key, _line_number), RetailH08Part(part_key), RetailH08Supplier(supplier_key, supplier_nation), RetailH08Orders(order_key, customer_key), RetailH08Customer(customer_key, customer_nation), RetailH08Nation(customer_nation, customer_region)"@) by {
        assert(texts.take(6).drop_last() =~= texts.take(5));
        reveal_strlit(", ");
        reveal_strlit("RetailH08Lineitem(order_key, part_key, supplier_key, _line_number), RetailH08Part(part_key), RetailH08Supplier(supplier_key, supplier_nation), RetailH08Orders(order_key, customer_key), RetailH08Customer(customer_key, customer_nation)");
        reveal_strlit("RetailH08Nation(customer_nation, customer_region)");
        reveal_strlit("RetailH08Lineitem(order_key, part_key, supplier_key, _line_number), RetailH08Part(part_key), RetailH08Supplier(supplier_key, supplier_nation), RetailH08Orders(order_key, customer_key), RetailH08Customer(customer_key, customer_nation), RetailH08Nation(customer_nation, customer_region)");
    }
    assert(join_sep(texts.take(7), ", "@) =~= "RetailH08Lineitem(order_key, part_key, supplier_key, _line_number), RetailH08Part(part_key), RetailH08Supplier(supplier_key, supplier_nation), RetailH08Orders(order_key, customer_key), RetailH08Customer(customer_key, customer_nation), RetailH08Nation(customer_nation, customer_region), RetailH08Region(customer_region)"@) by {
        assert(texts.take(7).drop_last() =~= texts.take(6));
        reveal_strlit(", ");
        reveal_strlit("RetailH08Lineitem(order_key, part_key, supplier_key, _line_number), RetailH08Part(part_key), RetailH08Supplier(supplier_key, supplier_nation), RetailH08Orders(order_key, customer_key), RetailH08Customer(customer_key, customer_nation), RetailH08Nation(customer_nation, customer_region)");
        reveal_strlit("RetailH08Region(customer_region)");
        reveal_strlit("RetailH08Lineitem(order_key, part_key, supplier_key, _line_number), RetailH08Part(part_key), RetailH08Supplier(supplier_key, supplier_nation), RetailH08Orders(order_key, customer_key), RetailH08Customer(customer_key, customer_nation), RetailH08Nation(customer_nation, customer_region), RetailH08Region(customer_region)");
    }
    assert(join_sep(texts.take(8), ", "@) =~= "RetailH08Lineitem(order_key, part_key, supplier_key, _line_number), RetailH08Part(part_key), RetailH08Supplier(supplier_key, supplier_nation), RetailH08Orders(order_key, customer_key), RetailH08Customer(customer_key, customer_nation), RetailH08Nation(customer_nation, customer_region), RetailH08Region(customer_region), RetailH08Nation(supplier_nation, _supplier_region)"@) by {
        assert(texts.take(8).drop_last() =~= texts.take(7));
        reveal_strlit(", ");
        reveal_strlit("RetailH08Lineitem(order_key, part_key, supplier_key, _line_number), RetailH08Part(part_key), RetailH08Supplier(supplier_key, supplier_nation), RetailH08Orders(order_key, customer_key), RetailH08Customer(customer_key, customer_nation), RetailH08Nation(customer_nation, customer_region), RetailH08Region(customer_region)");
        reveal_strlit("RetailH08Nation(supplier_nation, _supplier_region)");
        reveal_strlit("RetailH08Lineitem(order_key, part_key, supplier_key, _line_number), RetailH08Part(part_key), RetailH08Supplier(supplier_key, supplier_nation), RetailH08Orders(order_key, customer_key), RetailH08Customer(customer_key, customer_nation), RetailH08Nation(customer_nation, customer_region), RetailH08Region(customer_region), RetailH08Nation(supplier_nation, _supplier_region)");
    }
    assert(texts.take(8) =~= texts);
}

/// The rule of the RetailH08 program is its query text's.
#[verifier::spinoff_prover]
proof fn lemma_rule_retail_h08()
    ensures
        rule_text(QueryProgram::RetailH08.module_spec()) == written_rule(QueryProgram::RetailH08),
{
    lemma_atoms_retail_h08();
    lemma_joined_retail_h08();
    let m = QueryProgram::RetailH08.module_spec();
    assert(rule_text(m) =~= written_rule(QueryProgram::RetailH08)) by {
        reveal_strlit("retail_h08_result(order_key, part_key, supplier_key)");
        reveal_strlit(" :- ");
        reveal_strlit("RetailH08Lineitem(order_key, part_key, supplier_key, _line_number), RetailH08Part(part_key), RetailH08Supplier(supplier_key, supplier_nation), RetailH08Orders(order_key, customer_key), RetailH08Customer(customer_key, customer_nation), RetailH08Nation(customer_nation, customer_region), RetailH08Region(customer_region), RetailH08Nation(supplier_nation, _supplier_region)");
        reveal_strlit(".");
        reveal_strlit("retail_h08_result(order_key, part_key, supplier_key) :- RetailH08Lineitem(order_key, part_key, supplier_key, _line_number), RetailH08Part(part_key), RetailH08Supplier(supplier_key, supplier_nation), RetailH08Orders(order_key, customer_key), RetailH08Customer(customer_key, customer_nation), RetailH08Nation(customer_nation, customer_region), RetailH08Region(customer_region), RetailH08Nation(supplier_nation, _supplier_region).");
    }
}

/// The atoms of the RetailH09 program, each in query notation.
#[verifier::rlimit(60)]
#[verifier::spinoff_prover]
proof fn lemma_atoms_retail_h09()
    ensures
        atom_text(QueryProgram::RetailH09.module_spec().head) == "retail_h09_result(order_key, part_key, supplier_key)"@,
        QueryProgram::RetailH09.module_spec().body.map_values(|a: (Seq<char>, Seq<Seq<char>>)| atom_text(a))
            == seq!["RetailH09Lineitem(order_key, part_key, supplier_key, _line_number)"@, "RetailH09PartSupp(part_key, supplier_key)"@, "RetailH09Part(part_key)"@, "RetailH09Supplier(supplier_key, nation_key)"@, "RetailH09Orders(order_key, _customer_key)"@, "RetailH09Nation(nation_key, _region_key)"@],
{
    let m = QueryProgram::RetailH09.module_spec();
    assert(atom_text(m.head) =~= "retail_h09_result(order_key, part_key, supplier_key)"@) by {
        reveal_strlit("(");
        reveal_strlit(")");
        reveal_strlit(", ");
        reveal_strlit("retail_h09_result");
        reveal_strlit("order_key");
        reveal_strlit("part_key");
        reveal_strlit("supplier_key");
        reveal_strlit("retail_h09_result(order_key, part_key, supplier_key)");
        reveal_with_fuel(join_sep, 4);
    }
    assert(atom_text(m.body[0]) =~= "RetailH09Lineitem(order_key, part_key, supplier_key, _line_number)"@) by {
        reveal_strlit("(");
        reveal_strlit(")");
        reveal_strlit(", ");
        reveal_strlit("RetailH09Lineitem");
        reveal_strlit("_line_number");
        reveal_strlit("order_key");
        reveal_strlit("part_key");
        reveal_strlit("supplier_key");
        reveal_strlit("RetailH09Lineitem(order_key, part_key, supplier_key, _line_number)");
        reveal_with_fuel(join_sep, 5);
    }
    assert(atom_text(m.body[1]) =~= "RetailH09PartSupp(part_key, supplier_key)"@) by {
        reveal_strlit("(");
        reveal_strlit(")");
        reveal_strlit(", ");
        reveal_strlit("RetailH09PartSupp");
        reveal_strlit("part_key");
        reveal_strlit("supplier_key");
        reveal_strlit("RetailH09PartSupp(part_key, supplier_key)");
        reveal_with_fuel(join_sep, 3);
    }
    assert(atom_text(m.body[2]) =~= "RetailH09Part(part_key)"@) by {
        reveal_strlit("(");
        reveal_strlit(")");
        reveal_strlit(", ");
        reveal_strlit("RetailH09Part");
        reveal_strlit("part_key");
        reveal_strlit("RetailH09Part(part_key)");
        reveal_with_fuel(join_sep, 2);
    }
    assert(atom_text(m.body[3]) =~= "RetailH09Supplier(supplier_key, nation_key)"@) by {
        reveal_strlit("(");
        reveal_strlit(")");
        reveal_strlit(", ");
        reveal_strlit("RetailH09Supplier");
        reveal_strlit("nation_key");
        reveal_strlit("supplier_key");
        reveal_strlit("RetailH09Supplier(supplier_key, nation_key)");
        reveal_with_fuel(join_sep, 3);
    }
    assert(atom_text(m.body[4]) =~= "RetailH09Orders(order_key, _customer_key)"@) by {
        reveal_strlit("(");
        reveal_strlit(")");
        reveal_strlit(", ");
        reveal_strlit("RetailH09Orders");
        reveal_strlit("_customer_key");
        reveal_strlit("order_key");
        reveal_strlit("RetailH09Orders(order_key, _customer_key)");
        reveal_with_fuel(join_sep, 3);
    }
    assert(atom_text(m.body[5]) =~= "RetailH09Nation(nation_key, _region_key)"@) by {
        reveal_strlit("(");
        reveal_strlit(")");
        reveal_strlit(", ");
        reveal_strlit("RetailH09Nation");
        reveal_strlit("_region_key");
        reveal_strlit("nation_key");
        reveal_strlit("RetailH09Nation(nation_key, _region_key)");
        reveal_with_fuel(join_sep, 3);
    }
    let texts = seq!["RetailH09Lineitem(order_key, part_key, supplier_key, _line_number)"@, "RetailH09PartSupp(part_key, supplier_key)"@, "RetailH09Part(part_key)"@, "RetailH09Supplier(supplier_key, nation_key)"@, "RetailH09Orders(order_key, _customer_key)"@, "RetailH09Nation(nation_key, _region_key)"@];
    assert(m.body.map_values(|a: (Seq<char>, Seq<Seq<char>>)| atom_text(a)) =~= texts);
}

/// The atoms of the RetailH09 program joined by commas.
#[verifier::rlimit(60)]
#[verifier::spinoff_prover]
proof fn lemma_joined_retail_h09()
    ensures
        join_sep(seq!["RetailH09Lineitem(order_key, part_key, supplier_key, _line_number)"@, "RetailH09PartSupp(part_key, supplier_key)"@, "RetailH09Part(part_key)"@, "RetailH09Supplier(supplier_key, nation_key)"@, "RetailH09Orders(order_key, _customer_key)"@, "RetailH09Nation(nation_key, _region_key)"@], ", "@) == "RetailH09Lineitem(order_key, part_key, supplier_key, _line_number), RetailH09PartSupp(part_key, supplier_key), RetailH09Part(part_key), RetailH09Supplier(supplier_key, nation_key), RetailH09Orders(order_key, _customer_key), RetailH09Nation(nation_key, _region_key)"@,
{
    let texts = seq!["RetailH09Lineitem(order_key, part_key, supplier_key, _line_number)"@, "RetailH09PartSupp(part_key, supplier_key)"@, "RetailH09Part(part_key)"@, "RetailH09Supplier(supplier_key, nation_key)"@, "RetailH09Orders(order_key, _customer_key)"@, "RetailH09Nation(nation_key, _region_key)"@];
    assert(join_sep(texts.take(1), ", "@) == "RetailH09Lineitem(order_key, part_key, supplier_key, _line_number)"@);
    assert(join_sep(texts.take(2), ", "@) =~= "RetailH09Lineitem(order_key, part_key, supplier_key, _line_number), RetailH09PartSupp(part_key, supplier_key)"@) by {
        assert(texts.take(2).drop_last() =~= texts.take(1));
        reveal_strlit(", ");
        reveal_strlit("RetailH09Lineitem(order_key, part_key, supplier_key, _line_number)");
        reveal_strlit("RetailH09PartSupp(part_key, supplier_key)");
        reveal_strlit("RetailH09Lineitem(order_key, part_key, supplier_key, _line_number), RetailH09PartSupp(part_key, supplier_key)");
    }
    assert(join_sep(texts.take(3), ", "@) =~= "RetailH09Lineitem(order_key, part_key, supplier_key, _line_number), RetailH09PartSupp(part_key, supplier_key), RetailH09Part(part_key)"@) by {
        assert(texts.take(3).drop_last() =~= texts.take(2));
        reveal_strlit(", ");
        reveal_strlit("RetailH09Lineitem(order_key, part_key, supplier_key, _line_number), RetailH09PartSupp(part_key, supplier_key)");
        reveal_strlit("RetailH09Part(part_key)");
        reveal_strlit("RetailH09Lineitem(order_key, part_key, supplier_key, _line_number), RetailH09PartSupp(part_key, supplier_key), RetailH09Part(part_key)");
    }
    assert(join_sep(texts.take(4), ", "@) =~= "RetailH09Lineitem(order_key, part_key, supplier_key, _line_number), RetailH09PartSupp(part_key, supplier_key), RetailH09Part(part_key), RetailH09Supplier(supplier_key, nation_key)"@) by {
        assert(texts.take(4).drop_last() =~= texts.take(3));
        reveal_strlit(", ");
        reveal_strlit("RetailH09Lineitem(order_key, part_key, supplier_key, _line_number), RetailH09PartSupp(part_key, supplier_key), RetailH09Part(part_key)");
        reveal_strlit("RetailH09Supplier(supplier_key, nation_key)");
        reveal_strlit("RetailH09Lineitem(order_key, part_key, supplier_key, _line_number), RetailH09PartSupp(part_key, supplier_key), RetailH09Part(part_key), RetailH09Supplier(supplier_key, nation_key)");
    }
    assert(join_sep(texts.take(5), ", "@) =~= "RetailH09Lineitem(order_key, part_key, supplier_key, _line_number), RetailH09PartSupp(part_key, supplier_key), RetailH09Part(part_key), RetailH09Supplier(supplier_key, nation_key), RetailH09Orders(order_key, _customer_key)"@) by {
        assert(texts.take(5).drop_last() =~= texts.take(4));
        reveal_strlit(", ");
        reveal_strlit("RetailH09Lineitem(order_key, part_key, supplier_key, _line_number), RetailH09PartSupp(part_key, supplier_key), RetailH09Part(part_key), RetailH09Supplier(supplier_key, nation_key)");
        reveal_strlit("RetailH09Orders(order_key, _customer_key)");
        reveal_strlit("RetailH09Lineitem(order_key, part_key, supplier_key, _line_number), RetailH09PartSupp(part_key, supplier_key), RetailH09Part(part_key), RetailH09Supplier(supplier_key, nation_key), RetailH09Orders(order_key, _customer_key)");
    }
    assert(join_sep(texts.take(6), ", "@) =~= "RetailH09Lineitem(order_key, part_key, supplier_key, _line_number), RetailH09PartSupp(part_key, supplier_key), RetailH09Part(part_key), RetailH09Supplier(supplier_key, nation_key), RetailH09Orders(order_key, _customer_key), RetailH09Nation(nation_key, _region_key)"@) by {
        assert(texts.take(6).drop_last() =~= texts.take(5));
        reveal_strlit(", ");
        reveal_strlit("RetailH09Lineitem(order_key, part_key, supplier_key, _line_number), RetailH09PartSupp(part_key, supplier_key), RetailH09Part(part_key), RetailH09Supplier(supplier_key, nation_key), RetailH09Orders(order_key, _customer_key)");
        reveal_strlit("RetailH09Nation(nation_key, _region_key)");
        reveal_strlit("RetailH09Lineitem(order_key, part_key, supplier_key, _line_number), RetailH09PartSupp(part_key, supplier_key), RetailH09Part(part_key), RetailH09Supplier(supplier_key, nation_key), RetailH09Orders(order_key, _customer_key), RetailH09Nation(nation_key, _region_key)");
    }
    assert(texts.take(6) =~= texts);
}

/// The rule of the RetailH09 program is its query text's.
#[verifier::spinoff_prover]
proof fn lemma_rule_retail_h09()
    ensures
        rule_text(QueryProgram::RetailH09.module_spec()) == written_rule(QueryProgram::RetailH09),
{
    lemma_atoms_retail_h09();
    lemma_joined_retail_h09();
    let m = QueryProgram::RetailH09.module_spec();
    assert(rule_text(m) =~= written_rule(QueryProgram::RetailH09)) by {
        reveal_strlit("retail_h09_result(order_key, part_key, supplier_key)");
        reveal_strlit(" :- ");
        reveal_strlit("RetailH09Lineitem(order_key, part_key, supplier_key, _line_number), RetailH09PartSupp(part_key, supplier_key), RetailH09Part(part_key), RetailH09Supplier(supplier_key, nation_key), RetailH09Orders(order_key, _customer_key), RetailH09Nation(nation_key, _region_key)");
        reveal_strlit(".");
        reveal_strlit("retail_h09_result(order_key, part_key, supplier_key) :- RetailH09Lineitem(order_key, part_key, supplier_key, _line_number), RetailH09PartSupp(part_key, supplier_key), RetailH09Part(part_key), RetailH09Supplier(supplier_key, nation_key), RetailH09Orders(order_key, _customer_key), RetailH09Nation(nation_key, _region_key).");
    }
}

/// The atoms of the RetailH21Positive program, each in query notation.
#[verifier::rlimit(60)]
#[verifier::spinoff_prover]
proof fn lemma_atoms_retail_h21_positive()
    ensures
        atom_text(QueryProgram::RetailH21Positive.module_spec().head) == "retail_h21_positive_result(order_key, waiting_supplier, other_supplier)"@,
        QueryProgram::RetailH21Positive.module_spec().body.map_values(|a: (Seq<char>, Seq<Seq<char>>)| atom_text(a))
            == seq!["RetailH21PositiveSupplier(waiting_supplier, nation_key)"@, "RetailH21PositiveLineitem(order_key, _waiting_part, waiting_supplier, _waiting_line)"@, "RetailH21PositiveOrders(order_key, _customer_key)"@, "RetailH21PositiveNation(nation_key, _region_key)"@, "RetailH21PositiveLineitem(order_key, _other_part, other_supplier, _other_line)"@],
{
    let m = QueryProgram::RetailH21Positive.module_spec();
    assert(atom_text(m.head) =~= "retail_h21_positive_result(order_key, waiting_supplier, other_supplier)"@) by {
        reveal_strlit("(");
        reveal_strlit(")");
        reveal_strlit(", ");
        reveal_strlit("retail_h21_positive_result");
        reveal_strlit("order_key");
        reveal_strlit("other_supplier");
        reveal_strlit("waiting_supplier");
        reveal_strlit("retail_h21_positive_result(order_key, waiting_supplier, other_supplier)");
        reveal_with_fuel(join_sep, 4);
    }
    assert(atom_text(m.body[0]) =~= "RetailH21PositiveSupplier(waiting_supplier, nation_key)"@) by {
        reveal_strlit("(");
        reveal_strlit(")");
        reveal_strlit(", ");
        reveal_strlit("RetailH21PositiveSupplier");
        reveal_strlit("nation_key");
        reveal_strlit("waiting_supplier");
        reveal_strlit("RetailH21PositiveSupplier(waiting_supplier, nation_key)");
        reveal_with_fuel(join_sep, 3);
    }
    assert(atom_text(m.body[1]) =~= "RetailH21PositiveLineitem(order_key, _waiting_part, waiting_supplier, _waiting_line)"@) by {
        reveal_strlit("(");
        reveal_strlit(")");
        reveal_strlit(", ");
        reveal_strlit("RetailH21PositiveLineitem");
        reveal_strlit("_waiting_line");
        reveal_strlit("_waiting_part");
        reveal_strlit("order_key");
        reveal_strlit("waiting_supplier");
        reveal_strlit("RetailH21PositiveLineitem(order_key, _waiting_part, waiting_supplier, _waiting_line)");
        reveal_with_fuel(join_sep, 5);
    }
    assert(atom_text(m.body[2]) =~= "RetailH21PositiveOrders(order_key, _customer_key)"@) by {
        reveal_strlit("(");
        reveal_strlit(")");
        reveal_strlit(", ");
        reveal_strlit("RetailH21PositiveOrders");
        reveal_strlit("_customer_key");
        reveal_strlit("order_key");
        reveal_strlit("RetailH21PositiveOrders(order_key, _customer_key)");
        reveal_with_fuel(join_sep, 3);
    }
    assert(atom_text(m.body[3]) =~= "RetailH21PositiveNation(nation_key, _region_key)"@) by {
        reveal_strlit("(");
        reveal_strlit(")");
        reveal_strlit(", ");
        reveal_strlit("RetailH21PositiveNation");
        reveal_strlit("_region_key");
        reveal_strlit("nation_key");
        reveal_strlit("RetailH21PositiveNation(nation_key, _region_key)");
        reveal_with_fuel(join_sep, 3);
    }
    assert(atom_text(m.body[4]) =~= "RetailH21PositiveLineitem(order_key, _other_part, other_supplier, _other_line)"@) by {
        reveal_strlit("(");
        reveal_strlit(")");
        reveal_strlit(", ");
        reveal_strlit("RetailH21PositiveLineitem");
        reveal_strlit("_other_line");
        reveal_strlit("_other_part");
        reveal_strlit("order_key");
        reveal_strlit("other_supplier");
        reveal_strlit("RetailH21PositiveLineitem(order_key, _other_part, other_supplier, _other_line)");
        reveal_with_fuel(join_sep, 5);
    }
    let texts = seq!["RetailH21PositiveSupplier(waiting_supplier, nation_key)"@, "RetailH21PositiveLineitem(order_key, _waiting_part, waiting_supplier, _waiting_line)"@, "RetailH21PositiveOrders(order_key, _customer_key)"@, "RetailH21PositiveNation(nation_key, _region_key)"@, "RetailH21PositiveLineitem(order_key, _other_part, other_supplier, _other_line)"@];
    assert(m.body.map_values(|a: (Seq<char>, Seq<Seq<char>>)| atom_text(a)) =~= texts);
}

/// The atoms of the RetailH21Positive program joined by commas.
#[verifier::rlimit(60)]
#[verifier::spinoff_prover]
proof fn lemma_joined_retail_h21_positive()
    ensures
        join_sep(seq!["RetailH21PositiveSupplier(waiting_supplier, nation_key)"@, "RetailH21PositiveLineitem(order_key, _waiting_part, waiting_supplier, _waiting_line)"@, "RetailH21PositiveOrders(order_key, _customer_key)"@, "RetailH21PositiveNation(nation_key, _region_key)"@, "RetailH21PositiveLineitem(order_key, _other_part, other_supplier, _other_line)"@], ", "@) == "RetailH21PositiveSupplier(waiting_supplier, nation_key), RetailH21PositiveLineitem(order_key, _waiting_part, waiting_supplier, _waiting_line), RetailH21PositiveOrders(order_key, _customer_key), RetailH21PositiveNation(nation_key, _region_key), RetailH21PositiveLineitem(order_key, _other_part, other_supplier, _other_line)"@,
{
    let texts = seq!["RetailH21PositiveSupplier(waiting_supplier, nation_key)"@, "RetailH21PositiveLineitem(order_key, _waiting_part, waiting_supplier, _waiting_line)"@, "RetailH21PositiveOrders(order_key, _customer_key)"@, "RetailH21PositiveNation(nation_key, _region_key)"@, "RetailH21PositiveLineitem(order_key, _other_part, other_supplier, _other_line)"@];
    assert(join_sep(texts.take(1), ", "@) == "RetailH21PositiveSupplier(waiting_supplier, nation_key)"@);
    assert(join_sep(texts.take(2), ", "@) =~= "RetailH21PositiveSupplier(waiting_supplier, nation_key), RetailH21PositiveLineitem(order_key, _waiting_part, waiting_supplier, _waiting_line)"@) by {
        assert(texts.take(2).drop_last() =~= texts.take(1));
        reveal_strlit(", ");
        reveal_strlit("RetailH21PositiveSupplier(waiting_supplier, nation_key)");
        reveal_strlit("RetailH21PositiveLineitem(order_key, _waiting_part, waiting_supplier, _waiting_line)");
        reveal_strlit("RetailH21PositiveSupplier(waiting_supplier, nation_key), RetailH21PositiveLineitem(order_key, _waiting_part, waiting_supplier, _waiting_line)");
    }
    assert(join_sep(texts.take(3), ", "@) =~= "RetailH21PositiveSupplier(waiting_supplier, nation_key), RetailH21PositiveLineitem(order_key, _waiting_part, waiting_supplier, _waiting_line), RetailH21PositiveOrders(order_key, _customer_key)"@) by {
        assert(texts.take(3).drop_last() =~= texts.take(2));
        reveal_strlit(", ");
        reveal_strlit("RetailH21PositiveSupplier(waiting_supplier, nation_key), RetailH21PositiveLineitem(order_key, _waiting_part, waiting_supplier, _waiting_line)");
        reveal_strlit("RetailH21PositiveOrders(order_key, _customer_key)");
        reveal_strlit("RetailH21PositiveSupplier(waiting_supplier, nation_key), RetailH21PositiveLineitem(order_key, _waiting_part, waiting_supplier, _waiting_line), RetailH21PositiveOrders(order_key, _customer_key)");
    }
    assert(join_sep(texts.take(4), ", "@) =~= "RetailH21PositiveSupplier(waiting_supplier, nation_key), RetailH21PositiveLineitem(order_key, _waiting_part, waiting_supplier, _waiting_line), RetailH21PositiveOrders(order_key, _customer_key), RetailH21PositiveNation(nation_key, _region_key)"@) by {
        assert(texts.take(4).drop_last() =~= texts.take(3));
        reveal_strlit(", ");
        reveal_strlit("RetailH21PositiveSupplier(waiting_supplier, nation_key), RetailH21PositiveLineitem(order_key, _waiting_part, waiting_supplier, _waiting_line), RetailH21PositiveOrders(order_key, _customer_key)");
        reveal_strlit("RetailH21PositiveNation(nation_key, _region_key)");
        reveal_strlit("RetailH21PositiveSupplier(waiting_supplier, nation_key), RetailH21PositiveLineitem(order_key, _waiting_part, waiting_supplier, _waiting_line), RetailH21PositiveOrders(order_key, _customer_key), RetailH21PositiveNation(nation_key, _region_key)");
    }
    assert(join_sep(texts.take(5), ", "@) =~= "RetailH21PositiveSupplier(waiting_supplier, nation_key), RetailH21PositiveLineitem(order_key, _waiting_part, waiting_supplier, _waiting_line), RetailH21PositiveOrders(order_key, _customer_key), RetailH21PositiveNation(nation_key, _region_key), RetailH21PositiveLineitem(order_key, _other_part, other_supplier, _other_line)"@) by {
        assert(texts.take(5).drop_last() =~= texts.take(4));
        reveal_strlit(", ");
        reveal_strlit("RetailH21PositiveSupplier(waiting_supplier, nation_key), RetailH21PositiveLineitem(order_key, _waiting_part, waiting_supplier, _waiting_line), RetailH21PositiveOrders(order_key, _customer_key), RetailH21PositiveNation(nation_key, _region_key)");
        reveal_strlit("RetailH21PositiveLineitem(order_key, _other_part, other_supplier, _other_line)");
        reveal_strlit("RetailH21PositiveSupplier(waiting_supplier, nation_key), RetailH21PositiveLineitem(order_key, _waiting_part, waiting_supplier, _waiting_line), RetailH21PositiveOrders(order_key, _customer_key), RetailH21PositiveNation(nation_key, _region_key), RetailH21PositiveLineitem(order_key, _other_part, other_supplier, _other_line)");
    }
    assert(texts.take(5) =~= texts);
}

/// The rule of the RetailH21Positive program is its query text's.
#[verifier::spinoff_prover]
proof fn lemma_rule_retail_h21_positive()
    ensures
        rule_text(QueryProgram::RetailH21Positive.module_spec()) == written_rule(QueryProgram::RetailH21Positive),
{
    lemma_atoms_retail_h21_positive();
    lemma_joined_retail_h21_positive();
    let m = QueryProgram::RetailH21Positive.module_spec();
    assert(rule_text(m) =~= written_rule(QueryProgram::RetailH21Positive)) by {
        reveal_strlit("retail_h21_positive_result(order_key, waiting_supplier, other_supplier)");
        reveal_strlit(" :- ");
        reveal_strlit("RetailH21PositiveSupplier(waiting_supplier, nation_key), RetailH21PositiveLineitem(order_key, _waiting_part, waiting_supplier, _waiting_line), RetailH21PositiveOrders(order_key, _customer_key), RetailH21PositiveNation(nation_key, _region_key), RetailH21PositiveLineitem(order_key, _other_part, other_supplier, _other_line)");
        reveal_strlit(".");
        reveal_strlit("retail_h21_positive_result(order_key, waiting_supplier, other_supplier) :- RetailH21PositiveSupplier(waiting_supplier, nation_key), RetailH21PositiveLineitem(order_key, _waiting_part, waiting_supplier, _waiting_line), RetailH21PositiveOrders(order_key, _customer_key), RetailH21PositiveNation(nation_key, _region_key), RetailH21PositiveLineitem(order_key, _other_part, other_supplier, _other_line).");
    }
}

/// The atoms of the RetailD19 program, each in query notation.
#[verifier::rlimit(60)]
#[verifier::spinoff_prover]
proof fn lemma_atoms_retail_d19()
    ensures
        atom_text(QueryProgram::RetailD19.module_spec().head) == "retail_d19_result(ticket_number, item_key, customer_key, store_key)"@,
        QueryProgram::RetailD19.module_spec().body.map_values(|a: (Seq<char>, Seq<Seq<char>>)| atom_text(a))
            == seq!["RetailD19StoreSales(ticket_number, sold_date, item_key, customer_key, store_key)"@, "RetailD19DateDim(sold_date)"@, "RetailD19Item(item_key)"@, "RetailD19Customer(customer_key, address_key)"@, "RetailD19CustomerAddress(address_key)"@, "RetailD19Store(store_key)"@],
{
    let m = QueryProgram::RetailD19.module_spec();
    assert(atom_text(m.head) =~= "retail_d19_result(ticket_number, item_key, customer_key, store_key)"@) by {
        reveal_strlit("(");
        reveal_strlit(")");
        reveal_strlit(", ");
        reveal_strlit("retail_d19_result");
        reveal_strlit("customer_key");
        reveal_strlit("item_key");
        reveal_strlit("store_key");
        reveal_strlit("ticket_number");
        reveal_strlit("retail_d19_result(ticket_number, item_key, customer_key, store_key)");
        reveal_with_fuel(join_sep, 5);
    }
    assert(atom_text(m.body[0]) =~= "RetailD19StoreSales(ticket_number, sold_date, item_key, customer_key, store_key)"@) by {
        reveal_strlit("(");
        reveal_strlit(")");
        reveal_strlit(", ");
        reveal_strlit("RetailD19StoreSales");
        reveal_strlit("customer_key");
        reveal_strlit("item_key");
        reveal_strlit("sold_date");
        reveal_strlit("store_key");
        reveal_strlit("ticket_number");
        reveal_strlit("RetailD19StoreSales(ticket_number, sold_date, item_key, customer_key, store_key)");
        reveal_with_fuel(join_sep, 6);
    }
    assert(atom_text(m.body[1]) =~= "RetailD19DateDim(sold_date)"@) by {
        reveal_strlit("(");
        reveal_strlit(")");
        reveal_strlit(", ");
        reveal_strlit("RetailD19DateDim");
        reveal_strlit("sold_date");
        reveal_strlit("RetailD19DateDim(sold_date)");
        reveal_with_fuel(join_sep, 2);
    }
    assert(atom_text(m.body[2]) =~= "RetailD19Item(item_key)"@) by {
        reveal_strlit("(");
        reveal_strlit(")");
        reveal_strlit(", ");
        reveal_strlit("RetailD19Item");
        reveal_strlit("item_key");
        reveal_strlit("RetailD19Item(item_key)");
        reveal_with_fuel(join_sep, 2);
    }
    assert(atom_text(m.body[3]) =~= "RetailD19Customer(customer_key, address_key)"@) by {
        reveal_strlit("(");
        reveal_strlit(")");
        reveal_strlit(", ");
        reveal_strlit("RetailD19Customer");
        reveal_strlit("address_key");
        reveal_strlit("customer_key");
        reveal_strlit("RetailD19Customer(customer_key, address_key)");
        reveal_with_fuel(join_sep, 3);
    }
    assert(atom_text(m.body[4]) =~= "RetailD19CustomerAddress(address_key)"@) by {
        reveal_strlit("(");
        reveal_strlit(")");
        reveal_strlit(", ");
        reveal_strlit("RetailD19CustomerAddress");
        reveal_strlit("address_key");
        reveal_strlit("RetailD19CustomerAddress(address_key)");
        reveal_with_fuel(join_sep, 2);
    }
    assert(atom_text(m.body[5]) =~= "RetailD19Store(store_key)"@) by {
        reveal_strlit("(");
        reveal_strlit(")");
        reveal_strlit(", ");
        reveal_strlit("RetailD19Store");
        reveal_strlit("store_key");
        reveal_strlit("RetailD19Store(store_key)");
        reveal_with_fuel(join_sep, 2);
    }
    let texts = seq!["RetailD19StoreSales(ticket_number, sold_date, item_key, customer_key, store_key)"@, "RetailD19DateDim(sold_date)"@, "RetailD19Item(item_key)"@, "RetailD19Customer(customer_key, address_key)"@, "RetailD19CustomerAddress(address_key)"@, "RetailD19Store(store_key)"@];
    assert(m.body.map_values(|a: (Seq<char>, Seq<Seq<char>>)| atom_text(a)) =~= texts);
}

/// The atoms of the RetailD19 program joined by commas.
#[verifier::rlimit(60)]
#[verifier::spinoff_prover]
proof fn lemma_joined_retail_d19()
    ensures
        join_sep(seq!["RetailD19StoreSales(ticket_number, sold_date, item_key, customer_key, store_key)"@, "RetailD19DateDim(sold_date)"@, "RetailD19Item(item_key)"@, "RetailD19Customer(customer_key, address_key)"@, "RetailD19CustomerAddress(address_key)"@, "RetailD19Store(store_key)"@], ", "@) == "RetailD19StoreSales(ticket_number, sold_date, item_key, customer_key, store_key), RetailD19DateDim(sold_date), RetailD19Item(item_key), RetailD19Customer(customer_key, address_key), RetailD19CustomerAddress(address_key), RetailD19Store(store_key)"@,
{
    let texts = seq!["RetailD19StoreSales(ticket_number, sold_date, item_key, customer_key, store_key)"@, "RetailD19DateDim(sold_date)"@, "RetailD19Item(item_key)"@, "RetailD19Customer(customer_key, address_key)"@, "RetailD19CustomerAddress(address_key)"@, "RetailD19Store(store_key)"@];
    assert(join_sep(texts.take(1), ", "@) == "RetailD19StoreSales(ticket_number, sold_date, item_key, customer_key, store_key)"@);
    assert(join_sep(texts.take(2), ", "@) =~= "RetailD19StoreSales(ticket_number, sold_date, item_key, customer_key, store_key), RetailD19DateDim(sold_date)"@) by {
        assert(texts.take(2).drop_last() =~= texts.take(1));
        reveal_strlit(", ");
        reveal_strlit("RetailD19StoreSales(ticket_number, sold_date, item_key, customer_key, store_key)");
        reveal_strlit("RetailD19DateDim(sold_date)");
        reveal_strlit("RetailD19StoreSales(ticket_number, sold_date, item_key, customer_key, store_key), RetailD19DateDim(sold_date)");
    }
    assert(join_sep(texts.take(3), ", "@) =~= "RetailD19StoreSales(ticket_number, sold_date, item_key, customer_key, store_key), RetailD19DateDim(sold_date), RetailD19Item(item_key)"@) by {
        assert(texts.take(3).drop_last() =~= texts.take(2));
        reveal_strlit(", ");
        reveal_strlit("RetailD19StoreSales(ticket_number, sold_date, item_key, customer_key, store_key), RetailD19DateDim(sold_date)");
        reveal_strlit("RetailD19Item(item_key)");
        reveal_strlit("RetailD19StoreSales(ticket_number, sold_date, item_key, customer_key, store_key), RetailD19DateDim(sold_date), RetailD19Item(item_key)");
    }
    assert(join_sep(texts.take(4), ", "@) =~= "RetailD19StoreSales(ticket_number, sold_date, item_key, customer_key, store_key), RetailD19DateDim(sold_date), RetailD19Item(item_key), RetailD19Customer(customer_key, address_key)"@) by {
        assert(texts.take(4).drop_last() =~= texts.take(3));
        reveal_strlit(", ");
        reveal_strlit("RetailD19StoreSales(ticket_number, sold_date, item_key, customer_key, store_key), RetailD19DateDim(sold_date), RetailD19Item(item_key)");
        reveal_strlit("RetailD19Customer(customer_key, address_key)");
        reveal_strlit("RetailD19StoreSales(ticket_number, sold_date, item_key, customer_key, store_key), RetailD19DateDim(sold_date), RetailD19Item(item_key), RetailD19Customer(customer_key, address_key)");
    }
    assert(join_sep(texts.take(5), ", "@) =~= "RetailD19StoreSales(ticket_number, sold_date, item_key, customer_key, store_key), RetailD19DateDim(sold_date), RetailD19Item(item_key), RetailD19Customer(customer_key, address_key), RetailD19CustomerAddress(address_key)"@) by {
        assert(texts.take(5).drop_last() =~= texts.take(4));
        reveal_strlit(", ");
        reveal_strlit("RetailD19StoreSales(ticket_number, sold_date, item_key, customer_key, store_key), RetailD19DateDim(sold_date), RetailD19Item(item_key), RetailD19Customer(customer_key, address_key)");
        reveal_strlit("RetailD19CustomerAddress(address_key)");
        reveal_strlit("RetailD19StoreSales(ticket_number, sold_date, item_key, customer_key, store_key), RetailD19DateDim(sold_date), RetailD19Item(item_key), RetailD19Customer(customer_key, address_key), RetailD19CustomerAddress(address_key)");
    }
    assert(join_sep(texts.take(6), ", "@) =~= "RetailD19StoreSales(ticket_number, sold_date, item_key, customer_key, store_key), RetailD19DateDim(sold_date), RetailD19Item(item_key), RetailD19Customer(customer_key, address_key), RetailD19CustomerAddress(address_key), RetailD19Store(store_key)"@) by {
        assert(texts.take(6).drop_last() =~= texts.take(5));
        reveal_strlit(", ");
        reveal_strlit("RetailD19StoreSales(ticket_number, sold_date, item_key, customer_key, store_key), RetailD19DateDim(sold_date), RetailD19Item(item_key), RetailD19Customer(customer_key, address_key), RetailD19CustomerAddress(address_key)");
        reveal_strlit("RetailD19Store(store_key)");
        reveal_strlit("RetailD19StoreSales(ticket_number, sold_date, item_key, customer_key, store_key), RetailD19DateDim(sold_date), RetailD19Item(item_key), RetailD19Customer(customer_key, address_key), RetailD19CustomerAddress(address_key), RetailD19Store(store_key)");
    }
    assert(texts.take(6) =~= texts);
}

/// The rule of the RetailD19 program is its query text's.
#[verifier::spinoff_prover]
proof fn lemma_rule_retail_d19()
    ensures
        rule_text(QueryProgram::RetailD19.module_spec()) == written_rule(QueryProgram::RetailD19),
{
    lemma_atoms_retail_d19();
    lemma_joined_retail_d19();
    let m = QueryProgram::RetailD19.module_spec();
    assert(rule_text(m) =~= written_rule(QueryProgram::RetailD19)) by {
        reveal_strlit("retail_d19_result(ticket_number, item_key, customer_key, store_key)");
        reveal_strlit(" :- ");
        reveal_strlit("RetailD19StoreSales(ticket_number, sold_date, item_key, customer_key, store_key), RetailD19DateDim(sold_date), RetailD19Item(item_key), RetailD19Customer(customer_key, address_key), RetailD19CustomerAddress(address_key), RetailD19Store(store_key)");
        reveal_strlit(".");
        reveal_strlit("retail_d19_result(ticket_number, item_key, customer_key, store_key) :- RetailD19StoreSales(ticket_number, sold_date, item_key, customer_key, store_key), RetailD19DateDim(sold_date), RetailD19Item(item_key), RetailD19Customer(customer_key, address_key), RetailD19CustomerAddress(address_key), RetailD19Store(store_key).");
    }
}

/// The atoms of the RetailD27 program, each in query notation.
#[verifier::rlimit(60)]
#[verifier::spinoff_prover]
proof fn lemma_atoms_retail_d27()
    ensures
        atom_text(QueryProgram::RetailD27.module_spec().head) == "retail_d27_result(ticket_number, item_key, store_key)"@,
        QueryProgram::RetailD27.module_spec().body.map_values(|a: (Seq<char>, Seq<Seq<char>>)| atom_text(a))
            == seq!["RetailD27StoreSales(ticket_number, sold_date, item_key, store_key, customer_demo)"@, "RetailD27DateDim(sold_date)"@, "RetailD27Item(item_key)"@, "RetailD27Store(store_key)"@, "RetailD27CustomerDemo(customer_demo)"@],
{
    let m = QueryProgram::RetailD27.module_spec();
    assert(atom_text(m.head) =~= "retail_d27_result(ticket_number, item_key, store_key)"@) by {
        reveal_strlit("(");
        reveal_strlit(")");
        reveal_strlit(", ");
        reveal_strlit("retail_d27_result");
        reveal_strlit("item_key");
        reveal_strlit("store_key");
        reveal_strlit("ticket_number");
        reveal_strlit("retail_d27_result(ticket_number, item_key, store_key)");
        reveal_with_fuel(join_sep, 4);
    }
    assert(atom_text(m.body[0]) =~= "RetailD27StoreSales(ticket_number, sold_date, item_key, store_key, customer_demo)"@) by {
        reveal_strlit("(");
        reveal_strlit(")");
        reveal_strlit(", ");
        reveal_strlit("RetailD27StoreSales");
        reveal_strlit("customer_demo");
        reveal_strlit("item_key");
        reveal_strlit("sold_date");
        reveal_strlit("store_key");
        reveal_strlit("ticket_number");
        reveal_strlit("RetailD27StoreSales(ticket_number, sold_date, item_key, store_key, customer_demo)");
        reveal_with_fuel(join_sep, 6);
    }
    assert(atom_text(m.body[1]) =~= "RetailD27DateDim(sold_date)"@) by {
        reveal_strlit("(");
        reveal_strlit(")");
        reveal_strlit(", ");
        reveal_strlit("RetailD27DateDim");
        reveal_strlit("sold_date");
        reveal_strlit("RetailD27DateDim(sold_date)");
        reveal_with_fuel(join_sep, 2);
    }
    assert(atom_text(m.body[2]) =~= "RetailD27Item(item_key)"@) by {
        reveal_strlit("(");
        reveal_strlit(")");
        reveal_strlit(", ");
        reveal_strlit("RetailD27Item");
        reveal_strlit("item_key");
        reveal_strlit("RetailD27Item(item_key)");
        reveal_with_fuel(join_sep, 2);
    }
    assert(atom_text(m.body[3]) =~= "RetailD27Store(store_key)"@) by {
        reveal_strlit("(");
        reveal_strlit(")");
        reveal_strlit(", ");
        reveal_strlit("RetailD27Store");
        reveal_strlit("store_key");
        reveal_strlit("RetailD27Store(store_key)");
        reveal_with_fuel(join_sep, 2);
    }
    assert(atom_text(m.body[4]) =~= "RetailD27CustomerDemo(customer_demo)"@) by {
        reveal_strlit("(");
        reveal_strlit(")");
        reveal_strlit(", ");
        reveal_strlit("RetailD27CustomerDemo");
        reveal_strlit("customer_demo");
        reveal_strlit("RetailD27CustomerDemo(customer_demo)");
        reveal_with_fuel(join_sep, 2);
    }
    let texts = seq!["RetailD27StoreSales(ticket_number, sold_date, item_key, store_key, customer_demo)"@, "RetailD27DateDim(sold_date)"@, "RetailD27Item(item_key)"@, "RetailD27Store(store_key)"@, "RetailD27CustomerDemo(customer_demo)"@];
    assert(m.body.map_values(|a: (Seq<char>, Seq<Seq<char>>)| atom_text(a)) =~= texts);
}

/// The atoms of the RetailD27 program joined by commas.
#[verifier::rlimit(60)]
#[verifier::spinoff_prover]
proof fn lemma_joined_retail_d27()
    ensures
        join_sep(seq!["RetailD27StoreSales(ticket_number, sold_date, item_key, store_key, customer_demo)"@, "RetailD27DateDim(sold_date)"@, "RetailD27Item(item_key)"@, "RetailD27Store(store_key)"@, "RetailD27CustomerDemo(customer_demo)"@], ", "@) == "RetailD27StoreSales(ticket_number, sold_date, item_key, store_key, customer_demo), RetailD27DateDim(sold_date), RetailD27Item(item_key), RetailD27Store(store_key), RetailD27CustomerDemo(customer_demo)"@,
{
    let texts = seq!["RetailD27StoreSales(ticket_number, sold_date, item_key, store_key, customer_demo)"@, "RetailD27DateDim(sold_date)"@, "RetailD27Item(item_key)"@, "RetailD27Store(store_key)"@, "RetailD27CustomerDemo(customer_demo)"@];
    assert(join_sep(texts.take(1), ", "@) == "RetailD27StoreSales(ticket_number, sold_date, item_key, store_key, customer_demo)"@);
    assert(join_sep(texts.take(2), ", "@) =~= "RetailD27StoreSales(ticket_number, sold_date, item_key, store_key, customer_demo), RetailD27DateDim(sold_date)"@) by {
        assert(texts.take(2).drop_last() =~= texts.take(1));
        reveal_strlit(", ");
        reveal_strlit("RetailD27StoreSales(ticket_number, sold_date, item_key, store_key, customer_demo)");
        reveal_strlit("RetailD27DateDim(sold_date)");
        reveal_strlit("RetailD27StoreSales(ticket_number, sold_date, item_key, store_key, customer_demo), RetailD27DateDim(sold_date)");
    }
    assert(join_sep(texts.take(3), ", "@) =~= "RetailD27StoreSales(ticket_number, sold_date, item_key, store_key, customer_demo), RetailD27DateDim(sold_date), RetailD27Item(item_key)"@) by {
        assert(texts.take(3).drop_last() =~= texts.take(2));
        reveal_strlit(", ");
        reveal_strlit("RetailD27StoreSales(ticket_number, sold_date, item_key, store_key, customer_demo), RetailD27DateDim(sold_date)");
        reveal_strlit("RetailD27Item(item_key)");
        reveal_strlit("RetailD27StoreSales(ticket_number, sold_date, item_key, store_key, customer_demo), RetailD27DateDim(sold_date), RetailD27Item(item_key)");
    }
    assert(join_sep(texts.take(4), ", "@) =~= "RetailD27StoreSales(ticket_number, sold_date, item_key, store_key, customer_demo), RetailD27DateDim(sold_date), RetailD27Item(item_key), RetailD27Store(store_key)"@) by {
        assert(texts.take(4).drop_last() =~= texts.take(3));
        reveal_strlit(", ");
        reveal_strlit("RetailD27StoreSales(ticket_number, sold_date, item_key, store_key, customer_demo), RetailD27DateDim(sold_date), RetailD27Item(item_key)");
        reveal_strlit("RetailD27Store(store_key)");
        reveal_strlit("RetailD27StoreSales(ticket_number, sold_date, item_key, store_key, customer_demo), RetailD27DateDim(sold_date), RetailD27Item(item_key), RetailD27Store(store_key)");
    }
    assert(join_sep(texts.take(5), ", "@) =~= "RetailD27StoreSales(ticket_number, sold_date, item_key, store_key, customer_demo), RetailD27DateDim(sold_date), RetailD27Item(item_key), RetailD27Store(store_key), RetailD27CustomerDemo(customer_demo)"@) by {
        assert(texts.take(5).drop_last() =~= texts.take(4));
        reveal_strlit(", ");
        reveal_strlit("RetailD27StoreSales(ticket_number, sold_date, item_key, store_key, customer_demo), RetailD27DateDim(sold_date), RetailD27Item(item_key), RetailD27Store(store_key)");
        reveal_strlit("RetailD27CustomerDemo(customer_demo)");
        reveal_strlit("RetailD27StoreSales(ticket_number, sold_date, item_key, store_key, customer_demo), RetailD27DateDim(sold_date), RetailD27Item(item_key), RetailD27Store(store_key), RetailD27CustomerDemo(customer_demo)");
    }
    assert(texts.take(5) =~= texts);
}

/// The rule of the RetailD27 program is its query text's.
#[verifier::spinoff_prover]
proof fn lemma_rule_retail_d27()
    ensures
        rule_text(QueryProgram::RetailD27.module_spec()) == written_rule(QueryProgram::RetailD27),
{
    lemma_atoms_retail_d27();
    lemma_joined_retail_d27();
    let m = QueryProgram::RetailD27.module_spec();
    assert(rule_text(m) =~= written_rule(QueryProgram::RetailD27)) by {
        reveal_strlit("retail_d27_result(ticket_number, item_key, store_key)");
        reveal_strlit(" :- ");
        reveal_strlit("RetailD27StoreSales(ticket_number, sold_date, item_key, store_key, customer_demo), RetailD27DateDim(sold_date), RetailD27Item(item_key), RetailD27Store(store_key), RetailD27CustomerDemo(customer_demo)");
        reveal_strlit(".");
        reveal_strlit("retail_d27_result(ticket_number, item_key, store_key) :- RetailD27StoreSales(ticket_number, sold_date, item_key, store_key, customer_demo), RetailD27DateDim(sold_date), RetailD27Item(item_key), RetailD27Store(store_key), RetailD27CustomerDemo(customer_demo).");
    }
}

/// The atoms of the RetailD72Inner program, each in query notation.
#[verifier::rlimit(60)]
#[verifier::spinoff_prover]
proof fn lemma_atoms_retail_d72_inner()
    ensures
        atom_text(QueryProgram::RetailD72Inner.module_spec().head) == "retail_d72_inner_result(order_number, item_key, warehouse_key, week_sequence)"@,
        QueryProgram::RetailD72Inner.module_spec().body.map_values(|a: (Seq<char>, Seq<Seq<char>>)| atom_text(a))
            == seq!["RetailD72InnerCatalogSales(order_number, item_key, customer_demo, household_demo, sold_date, ship_date)"@, "RetailD72InnerDateDim(sold_date, week_sequence)"@, "RetailD72InnerInventory(item_key, inventory_date, warehouse_key)"@, "RetailD72InnerDateDim(inventory_date, week_sequence)"@, "RetailD72InnerWarehouse(warehouse_key)"@, "RetailD72InnerItem(item_key)"@, "RetailD72InnerCustomerDemo(customer_demo)"@, "RetailD72InnerHouseholdDemo(household_demo)"@, "RetailD72InnerDateDim(ship_date, _ship_week_sequence)"@],
{
    let m = QueryProgram::RetailD72Inner.module_spec();
    assert(atom_text(m.head) =~= "retail_d72_inner_result(order_number, item_key, warehouse_key, week_sequence)"@) by {
        reveal_strlit("(");
        reveal_strlit(")");
        reveal_strlit(", ");
        reveal_strlit("retail_d72_inner_result");
        reveal_strlit("item_key");
        reveal_strlit("order_number");
        reveal_strlit("warehouse_key");
        reveal_strlit("week_sequence");
        reveal_strlit("retail_d72_inner_result(order_number, item_key, warehouse_key, week_sequence)");
        reveal_with_fuel(join_sep, 5);
    }
    assert(atom_text(m.body[0]) =~= "RetailD72InnerCatalogSales(order_number, item_key, customer_demo, household_demo, sold_date, ship_date)"@) by {
        reveal_strlit("(");
        reveal_strlit(")");
        reveal_strlit(", ");
        reveal_strlit("RetailD72InnerCatalogSales");
        reveal_strlit("customer_demo");
        reveal_strlit("household_demo");
        reveal_strlit("item_key");
        reveal_strlit("order_number");
        reveal_strlit("ship_date");
        reveal_strlit("sold_date");
        reveal_strlit("RetailD72InnerCatalogSales(order_number, item_key, customer_demo, household_demo, sold_date, ship_date)");
        reveal_with_fuel(join_sep, 7);
    }
    assert(atom_text(m.body[1]) =~= "RetailD72InnerDateDim(sold_date, week_sequence)"@) by {
        reveal_strlit("(");
        reveal_strlit(")");
        reveal_strlit(", ");
        reveal_strlit("RetailD72InnerDateDim");
        reveal_strlit("sold_date");
        reveal_strlit("week_sequence");
        reveal_strlit("RetailD72InnerDateDim(sold_date, week_sequence)");
        reveal_with_fuel(join_sep, 3);
    }
    assert(atom_text(m.body[2]) =~= "RetailD72InnerInventory(item_key, inventory_date, warehouse_key)"@) by {
        reveal_strlit("(");
        reveal_strlit(")");
        reveal_strlit(", ");
        reveal_strlit("RetailD72InnerInventory");
        reveal_strlit("inventory_date");
        reveal_strlit("item_key");
        reveal_strlit("warehouse_key");
        reveal_strlit("RetailD72InnerInventory(item_key, inventory_date, warehouse_key)");
        reveal_with_fuel(join_sep, 4);
    }
    assert(atom_text(m.body[3]) =~= "RetailD72InnerDateDim(inventory_date, week_sequence)"@) by {
        reveal_strlit("(");
        reveal_strlit(")");
        reveal_strlit(", ");
        reveal_strlit("RetailD72InnerDateDim");
        reveal_strlit("inventory_date");
        reveal_strlit("week_sequence");
        reveal_strlit("RetailD72InnerDateDim(inventory_date, week_sequence)");
        reveal_with_fuel(join_sep, 3);
    }
    assert(atom_text(m.body[4]) =~= "RetailD72InnerWarehouse(warehouse_key)"@) by {
        reveal_strlit("(");
        reveal_strlit(")");
        reveal_strlit(", ");
        reveal_strlit("RetailD72InnerWarehouse");
        reveal_strlit("warehouse_key");
        reveal_strlit("RetailD72InnerWarehouse(warehouse_key)");
        reveal_with_fuel(join_sep, 2);
    }
    assert(atom_text(m.body[5]) =~= "RetailD72InnerItem(item_key)"@) by {
        reveal_strlit("(");
        reveal_strlit(")");
        reveal_strlit(", ");
        reveal_strlit("RetailD72InnerItem");
        reveal_strlit("item_key");
        reveal_strlit("RetailD72InnerItem(item_key)");
        reveal_with_fuel(join_sep, 2);
    }
    assert(atom_text(m.body[6]) =~= "RetailD72InnerCustomerDemo(customer_demo)"@) by {
        reveal_strlit("(");
        reveal_strlit(")");
        reveal_strlit(", ");
        reveal_strlit("RetailD72InnerCustomerDemo");
        reveal_strlit("customer_demo");
        reveal_strlit("RetailD72InnerCustomerDemo(customer_demo)");
        reveal_with_fuel(join_sep, 2);
    }
    assert(atom_text(m.body[7]) =~= "RetailD72InnerHouseholdDemo(household_demo)"@) by {
        reveal_strlit("(");
        reveal_strlit(")");
        reveal_strlit(", ");
        reveal_strlit("RetailD72InnerHouseholdDemo");
        reveal_strlit("household_demo");
        reveal_strlit("RetailD72InnerHouseholdDemo(household_demo)");
        reveal_with_fuel(join_sep, 2);
    }
    assert(atom_text(m.body[8]) =~= "RetailD72InnerDateDim(ship_date, _ship_week_sequence)"@) by {
        reveal_strlit("(");
        reveal_strlit(")");
        reveal_strlit(", ");
        reveal_strlit("RetailD72InnerDateDim");
        reveal_strlit("_ship_week_sequence");
        reveal_strlit("ship_date");
        reveal_strlit("RetailD72InnerDateDim(ship_date, _ship_week_sequence)");
        reveal_with_fuel(join_sep, 3);
    }
    let texts = seq!["RetailD72InnerCatalogSales(order_number, item_key, customer_demo, household_demo, sold_date, ship_date)"@, "RetailD72InnerDateDim(sold_date, week_sequence)"@, "RetailD72InnerInventory(item_key, inventory_date, warehouse_key)"@, "RetailD72InnerDateDim(inventory_date, week_sequence)"@, "RetailD72InnerWarehouse(warehouse_key)"@, "RetailD72InnerItem(item_key)"@, "RetailD72InnerCustomerDemo(customer_demo)"@, "RetailD72InnerHouseholdDemo(household_demo)"@, "RetailD72InnerDateDim(ship_date, _ship_week_sequence)"@];
    assert(m.body.map_values(|a: (Seq<char>, Seq<Seq<char>>)| atom_text(a)) =~= texts);
}

/// The atoms of the RetailD72Inner program joined by commas.
#[verifier::rlimit(60)]
#[verifier::spinoff_prover]
proof fn lemma_joined_retail_d72_inner()
    ensures
        join_sep(seq!["RetailD72InnerCatalogSales(order_number, item_key, customer_demo, household_demo, sold_date, ship_date)"@, "RetailD72InnerDateDim(sold_date, week_sequence)"@, "RetailD72InnerInventory(item_key, inventory_date, warehouse_key)"@, "RetailD72InnerDateDim(inventory_date, week_sequence)"@, "RetailD72InnerWarehouse(warehouse_key)"@, "RetailD72InnerItem(item_key)"@, "RetailD72InnerCustomerDemo(customer_demo)"@, "RetailD72InnerHouseholdDemo(household_demo)"@, "RetailD72InnerDateDim(ship_date, _ship_week_sequence)"@], ", "@) == "RetailD72InnerCatalogSales(order_number, item_key, customer_demo, household_demo, sold_date, ship_date), RetailD72InnerDateDim(sold_date, week_sequence), RetailD72InnerInventory(item_key, inventory_date, warehouse_key), RetailD72InnerDateDim(inventory_date, week_sequence), RetailD72InnerWarehouse(warehouse_key), RetailD72InnerItem(item_key), RetailD72InnerCustomerDemo(customer_demo), RetailD72InnerHouseholdDemo(household_demo), RetailD72InnerDateDim(ship_date, _ship_week_sequence)"@,
{
    let texts = seq!["RetailD72InnerCatalogSales(order_number, item_key, customer_demo, household_demo, sold_date, ship_date)"@, "RetailD72InnerDateDim(sold_date, week_sequence)"@, "RetailD72InnerInventory(item_key, inventory_date, warehouse_key)"@, "RetailD72InnerDateDim(inventory_date, week_sequence)"@, "RetailD72InnerWarehouse(warehouse_key)"@, "RetailD72InnerItem(item_key)"@, "RetailD72InnerCustomerDemo(customer_demo)"@, "RetailD72InnerHouseholdDemo(household_demo)"@, "RetailD72InnerDateDim(ship_date, _ship_week_sequence)"@];
    assert(join_sep(texts.take(1), ", "@) == "RetailD72InnerCatalogSales(order_number, item_key, customer_demo, household_demo, sold_date, ship_date)"@);
    assert(join_sep(texts.take(2), ", "@) =~= "RetailD72InnerCatalogSales(order_number, item_key, customer_demo, household_demo, sold_date, ship_date), RetailD72InnerDateDim(sold_date, week_sequence)"@) by {
        assert(texts.take(2).drop_last() =~= texts.take(1));
        reveal_strlit(", ");
        reveal_strlit("RetailD72InnerCatalogSales(order_number, item_key, customer_demo, household_demo, sold_date, ship_date)");
        reveal_strlit("RetailD72InnerDateDim(sold_date, week_sequence)");
        reveal_strlit("RetailD72InnerCatalogSales(order_number, item_key, customer_demo, household_demo, sold_date, ship_date), RetailD72InnerDateDim(sold_date, week_sequence)");
    }
    assert(join_sep(texts.take(3), ", "@) =~= "RetailD72InnerCatalogSales(order_number, item_key, customer_demo, household_demo, sold_date, ship_date), RetailD72InnerDateDim(sold_date, week_sequence), RetailD72InnerInventory(item_key, inventory_date, warehouse_key)"@) by {
        assert(texts.take(3).drop_last() =~= texts.take(2));
        reveal_strlit(", ");
        reveal_strlit("RetailD72InnerCatalogSales(order_number, item_key, customer_demo, household_demo, sold_date, ship_date), RetailD72InnerDateDim(sold_date, week_sequence)");
        reveal_strlit("RetailD72InnerInventory(item_key, inventory_date, warehouse_key)");
        reveal_strlit("RetailD72InnerCatalogSales(order_number, item_key, customer_demo, household_demo, sold_date, ship_date), RetailD72InnerDateDim(sold_date, week_sequence), RetailD72InnerInventory(item_key, inventory_date, warehouse_key)");
    }
    assert(join_sep(texts.take(4), ", "@) =~= "RetailD72InnerCatalogSales(order_number, item_key, customer_demo, household_demo, sold_date, ship_date), RetailD72InnerDateDim(sold_date, week_sequence), RetailD72InnerInventory(item_key, inventory_date, warehouse_key), RetailD72InnerDateDim(inventory_date, week_sequence)"@) by {
        assert(texts.take(4).drop_last() =~= texts.take(3));
        reveal_strlit(", ");
        reveal_strlit("RetailD72InnerCatalogSales(order_number, item_key, customer_demo, household_demo, sold_date, ship_date), RetailD72InnerDateDim(sold_date, week_sequence), RetailD72InnerInventory(item_key, inventory_date, warehouse_key)");
        reveal_strlit("RetailD72InnerDateDim(inventory_date, week_sequence)");
        reveal_strlit("RetailD72InnerCatalogSales(order_number, item_key, customer_demo, household_demo, sold_date, ship_date), RetailD72InnerDateDim(sold_date, week_sequence), RetailD72InnerInventory(item_key, inventory_date, warehouse_key), RetailD72InnerDateDim(inventory_date, week_sequence)");
    }
    assert(join_sep(texts.take(5), ", "@) =~= "RetailD72InnerCatalogSales(order_number, item_key, customer_demo, household_demo, sold_date, ship_date), RetailD72InnerDateDim(sold_date, week_sequence), RetailD72InnerInventory(item_key, inventory_date, warehouse_key), RetailD72InnerDateDim(inventory_date, week_sequence), RetailD72InnerWarehouse(warehouse_key)"@) by {
        assert(texts.take(5).drop_last() =~= texts.take(4));
        reveal_strlit(", ");
        reveal_strlit("RetailD72InnerCatalogSales(order_number, item_key, customer_demo, household_demo, sold_date, ship_date), RetailD72InnerDateDim(sold_date, week_sequence), RetailD72InnerInventory(item_key, inventory_date, warehouse_key), RetailD72InnerDateDim(inventory_date, week_sequence)");
        reveal_strlit("RetailD72InnerWarehouse(warehouse_key)");
        reveal_strlit("RetailD72InnerCatalogSales(order_number, item_key, customer_demo, household_demo, sold_date, ship_date), RetailD72InnerDateDim(sold_date, week_sequence), RetailD72InnerInventory(item_key, inventory_date, warehouse_key), RetailD72InnerDateDim(inventory_date, week_sequence), RetailD72InnerWarehouse(warehouse_key)");
    }
    assert(join_sep(texts.take(6), ", "@) =~= "RetailD72InnerCatalogSales(order_number, item_key, customer_demo, household_demo, sold_date, ship_date), RetailD72InnerDateDim(sold_date, week_sequence), RetailD72InnerInventory(item_key, inventory_date, warehouse_key), RetailD72InnerDateDim(inventory_date, week_sequence), RetailD72InnerWarehouse(warehouse_key), RetailD72InnerItem(item_key)"@) by {
        assert(texts.take(6).drop_last() =~= texts.take(5));
        reveal_strlit(", ");
        reveal_strlit("RetailD72InnerCatalogSales(order_number, item_key, customer_demo, household_demo, sold_date, ship_date), RetailD72InnerDateDim(sold_date, week_sequence), RetailD72InnerInventory(item_key, inventory_date, warehouse_key), RetailD72InnerDateDim(inventory_date, week_sequence), RetailD72InnerWarehouse(warehouse_key)");
        reveal_strlit("RetailD72InnerItem(item_key)");
        reveal_strlit("RetailD72InnerCatalogSales(order_number, item_key, customer_demo, household_demo, sold_date, ship_date), RetailD72InnerDateDim(sold_date, week_sequence), RetailD72InnerInventory(item_key, inventory_date, warehouse_key), RetailD72InnerDateDim(inventory_date, week_sequence), RetailD72InnerWarehouse(warehouse_key), RetailD72InnerItem(item_key)");
    }
    assert(join_sep(texts.take(7), ", "@) =~= "RetailD72InnerCatalogSales(order_number, item_key, customer_demo, household_demo, sold_date, ship_date), RetailD72InnerDateDim(sold_date, week_sequence), RetailD72InnerInventory(item_key, inventory_date, warehouse_key), RetailD72InnerDateDim(inventory_date, week_sequence), RetailD72InnerWarehouse(warehouse_key), RetailD72InnerItem(item_key), RetailD72InnerCustomerDemo(customer_demo)"@) by {
        assert(texts.take(7).drop_last() =~= texts.take(6));
        reveal_strlit(", ");
        reveal_strlit("RetailD72InnerCatalogSales(order_number, item_key, customer_demo, household_demo, sold_date, ship_date), RetailD72InnerDateDim(sold_date, week_sequence), RetailD72InnerInventory(item_key, inventory_date, warehouse_key), RetailD72InnerDateDim(inventory_date, week_sequence), RetailD72InnerWarehouse(warehouse_key), RetailD72InnerItem(item_key)");
        reveal_strlit("RetailD72InnerCustomerDemo(customer_demo)");
        reveal_strlit("RetailD72InnerCatalogSales(order_number, item_key, customer_demo, household_demo, sold_date, ship_date), RetailD72InnerDateDim(sold_date, week_sequence), RetailD72InnerInventory(item_key, inventory_date, warehouse_key), RetailD72InnerDateDim(inventory_date, week_sequence), RetailD72InnerWarehouse(warehouse_key), RetailD72InnerItem(item_key), RetailD72InnerCustomerDemo(customer_demo)");
    }
    assert(join_sep(texts.take(8), ", "@) =~= "RetailD72InnerCatalogSales(order_number, item_key, customer_demo, household_demo, sold_date, ship_date), RetailD72InnerDateDim(sold_date, week_sequence), RetailD72InnerInventory(item_key, inventory_date, warehouse_key), RetailD72InnerDateDim(inventory_date, week_sequence), RetailD72InnerWarehouse(warehouse_key), RetailD72InnerItem(item_key), RetailD72InnerCustomerDemo(customer_demo), RetailD72InnerHouseholdDemo(household_demo)"@) by {
        assert(texts.take(8).drop_last() =~= texts.take(7));
        reveal_strlit(", ");
        reveal_strlit("RetailD72InnerCatalogSales(order_number, item_key, customer_demo, household_demo, sold_date, ship_date), RetailD72InnerDateDim(sold_date, week_sequence), RetailD72InnerInventory(item_key, inventory_date, warehouse_key), RetailD72InnerDateDim(inventory_date, week_sequence), RetailD72InnerWarehouse(warehouse_key), RetailD72InnerItem(item_key), RetailD72InnerCustomerDemo(customer_demo)");
        reveal_strlit("RetailD72InnerHouseholdDemo(household_demo)");
        reveal_strlit("RetailD72InnerCatalogSales(order_number, item_key, customer_demo, household_demo, sold_date, ship_date), RetailD72InnerDateDim(sold_date, week_sequence), RetailD72InnerInventory(item_key, inventory_date, warehouse_key), RetailD72InnerDateDim(inventory_date, week_sequence), RetailD72InnerWarehouse(warehouse_key), RetailD72InnerItem(item_key), RetailD72InnerCustomerDemo(customer_demo), RetailD72InnerHouseholdDemo(household_demo)");
    }
    assert(join_sep(texts.take(9), ", "@) =~= "RetailD72InnerCatalogSales(order_number, item_key, customer_demo, household_demo, sold_date, ship_date), RetailD72InnerDateDim(sold_date, week_sequence), RetailD72InnerInventory(item_key, inventory_date, warehouse_key), RetailD72InnerDateDim(inventory_date, week_sequence), RetailD72InnerWarehouse(warehouse_key), RetailD72InnerItem(item_key), RetailD72InnerCustomerDemo(customer_demo), RetailD72InnerHouseholdDemo(household_demo), RetailD72InnerDateDim(ship_date, _ship_week_sequence)"@) by {
        assert(texts.take(9).drop_last() =~= texts.take(8));
        reveal_strlit(", ");
        reveal_strlit("RetailD72InnerCatalogSales(order_number, item_key, customer_demo, household_demo, sold_date, ship_date), RetailD72InnerDateDim(sold_date, week_sequence), RetailD72InnerInventory(item_key, inventory_date, warehouse_key), RetailD72InnerDateDim(inventory_date, week_sequence), RetailD72InnerWarehouse(warehouse_key), RetailD72InnerItem(item_key), RetailD72InnerCustomerDemo(customer_demo), RetailD72InnerHouseholdDemo(household_demo)");
        reveal_strlit("RetailD72InnerDateDim(ship_date, _ship_week_sequence)");
        reveal_strlit("RetailD72InnerCatalogSales(order_number, item_key, customer_demo, household_demo, sold_date, ship_date), RetailD72InnerDateDim(sold_date, week_sequence), RetailD72InnerInventory(item_key, inventory_date, warehouse_key), RetailD72InnerDateDim(inventory_date, week_sequence), RetailD72InnerWarehouse(warehouse_key), RetailD72InnerItem(item_key), RetailD72InnerCustomerDemo(customer_demo), RetailD72InnerHouseholdDemo(household_demo), RetailD72InnerDateDim(ship_date, _ship_week_sequence)");
    }
    assert(texts.take(9) =~= texts);
}

/// The rule of the RetailD72Inner program is its query text's.
#[verifier::spinoff_prover]
proof fn lemma_rule_retail_d72_inner()
    ensures
        rule_text(QueryProgram::RetailD72Inner.module_spec()) == written_rule(QueryProgram::RetailD72Inner),
{
    lemma_atoms_retail_d72_inner();
    lemma_joined_retail_d72_inner();
    let m = QueryProgram::RetailD72Inner.module_spec();
    assert(rule_text(m) =~= written_rule(QueryProgram::RetailD72Inner)) by {
        reveal_strlit("retail_d72_inner_result(order_number, item_key, warehouse_key, week_sequence)");
        reveal_strlit(" :- ");
        reveal_strlit("RetailD72InnerCatalogSales(order_number, item_key, customer_demo, household_demo, sold_date, ship_date), RetailD72InnerDateDim(sold_date, week_sequence), RetailD72InnerInventory(item_key, inventory_date, warehouse_key), RetailD72InnerDateDim(inventory_date, week_sequence), RetailD72InnerWarehouse(warehouse_key), RetailD72InnerItem(item_key), RetailD72InnerCustomerDemo(customer_demo), RetailD72InnerHouseholdDemo(household_demo), RetailD72InnerDateDim(ship_date, _ship_week_sequence)");
        reveal_strlit(".");
        reveal_strlit("retail_d72_inner_result(order_number, item_key, warehouse_key, week_sequence) :- RetailD72InnerCatalogSales(order_number, item_key, customer_demo, household_demo, sold_date, ship_date), RetailD72InnerDateDim(sold_date, week_sequence), RetailD72InnerInventory(item_key, inventory_date, warehouse_key), RetailD72InnerDateDim(inventory_date, week_sequence), RetailD72InnerWarehouse(warehouse_key), RetailD72InnerItem(item_key), RetailD72InnerCustomerDemo(customer_demo), RetailD72InnerHouseholdDemo(household_demo), RetailD72InnerDateDim(ship_date, _ship_week_sequence).");
    }
}

/// The atoms of the RetailD85 program, each in query notation.
#[verifier::rlimit(60)]
#[verifier::spinoff_prover]
proof fn lemma_atoms_retail_d85()
    ensures
        atom_text(QueryProgram::RetailD85.module_spec().head) == "retail_d85_result(order_number, item_key, reason_key)"@,
        QueryProgram::RetailD85.module_spec().body.map_values(|a: (Seq<char>, Seq<Seq<char>>)| atom_text(a))
            == seq!["RetailD85WebSales(order_number, item_key, web_page, sold_date)"@, "RetailD85WebReturns(order_number, item_key, refunded_demo, returning_demo, address_key, reason_key)"@, "RetailD85WebPage(web_page)"@, "RetailD85CustomerDemo(refunded_demo)"@, "RetailD85CustomerDemo(returning_demo)"@, "RetailD85CustomerAddress(address_key)"@, "RetailD85DateDim(sold_date)"@, "RetailD85Reason(reason_key)"@],
{
    let m = QueryProgram::RetailD85.module_spec();
    assert(atom_text(m.head) =~= "retail_d85_result(order_number, item_key, reason_key)"@) by {
        reveal_strlit("(");
        reveal_strlit(")");
        reveal_strlit(", ");
        reveal_strlit("retail_d85_result");
        reveal_strlit("item_key");
        reveal_strlit("order_number");
        reveal_strlit("reason_key");
        reveal_strlit("retail_d85_result(order_number, item_key, reason_key)");
        reveal_with_fuel(join_sep, 4);
    }
    assert(atom_text(m.body[0]) =~= "RetailD85WebSales(order_number, item_key, web_page, sold_date)"@) by {
        reveal_strlit("(");
        reveal_strlit(")");
        reveal_strlit(", ");
        reveal_strlit("RetailD85WebSales");
        reveal_strlit("item_key");
        reveal_strlit("order_number");
        reveal_strlit("sold_date");
        reveal_strlit("web_page");
        reveal_strlit("RetailD85WebSales(order_number, item_key, web_page, sold_date)");
        reveal_with_fuel(join_sep, 5);
    }
    assert(atom_text(m.body[1]) =~= "RetailD85WebReturns(order_number, item_key, refunded_demo, returning_demo, address_key, reason_key)"@) by {
        reveal_strlit("(");
        reveal_strlit(")");
        reveal_strlit(", ");
        reveal_strlit("RetailD85WebReturns");
        reveal_strlit("address_key");
        reveal_strlit("item_key");
        reveal_strlit("order_number");
        reveal_strlit("reason_key");
        reveal_strlit("refunded_demo");
        reveal_strlit("returning_demo");
        reveal_strlit("RetailD85WebReturns(order_number, item_key, refunded_demo, returning_demo, address_key, reason_key)");
        reveal_with_fuel(join_sep, 7);
    }
    assert(atom_text(m.body[2]) =~= "RetailD85WebPage(web_page)"@) by {
        reveal_strlit("(");
        reveal_strlit(")");
        reveal_strlit(", ");
        reveal_strlit("RetailD85WebPage");
        reveal_strlit("web_page");
        reveal_strlit("RetailD85WebPage(web_page)");
        reveal_with_fuel(join_sep, 2);
    }
    assert(atom_text(m.body[3]) =~= "RetailD85CustomerDemo(refunded_demo)"@) by {
        reveal_strlit("(");
        reveal_strlit(")");
        reveal_strlit(", ");
        reveal_strlit("RetailD85CustomerDemo");
        reveal_strlit("refunded_demo");
        reveal_strlit("RetailD85CustomerDemo(refunded_demo)");
        reveal_with_fuel(join_sep, 2);
    }
    assert(atom_text(m.body[4]) =~= "RetailD85CustomerDemo(returning_demo)"@) by {
        reveal_strlit("(");
        reveal_strlit(")");
        reveal_strlit(", ");
        reveal_strlit("RetailD85CustomerDemo");
        reveal_strlit("returning_demo");
        reveal_strlit("RetailD85CustomerDemo(returning_demo)");
        reveal_with_fuel(join_sep, 2);
    }
    assert(atom_text(m.body[5]) =~= "RetailD85CustomerAddress(address_key)"@) by {
        reveal_strlit("(");
        reveal_strlit(")");
        reveal_strlit(", ");
        reveal_strlit("RetailD85CustomerAddress");
        reveal_strlit("address_key");
        reveal_strlit("RetailD85CustomerAddress(address_key)");
        reveal_with_fuel(join_sep, 2);
    }
    assert(atom_text(m.body[6]) =~= "RetailD85DateDim(sold_date)"@) by {
        reveal_strlit("(");
        reveal_strlit(")");
        reveal_strlit(", ");
        reveal_strlit("RetailD85DateDim");
        reveal_strlit("sold_date");
        reveal_strlit("RetailD85DateDim(sold_date)");
        reveal_with_fuel(join_sep, 2);
    }
    assert(atom_text(m.body[7]) =~= "RetailD85Reason(reason_key)"@) by {
        reveal_strlit("(");
        reveal_strlit(")");
        reveal_strlit(", ");
        reveal_strlit("RetailD85Reason");
        reveal_strlit("reason_key");
        reveal_strlit("RetailD85Reason(reason_key)");
        reveal_with_fuel(join_sep, 2);
    }
    let texts = seq!["RetailD85WebSales(order_number, item_key, web_page, sold_date)"@, "RetailD85WebReturns(order_number, item_key, refunded_demo, returning_demo, address_key, reason_key)"@, "RetailD85WebPage(web_page)"@, "RetailD85CustomerDemo(refunded_demo)"@, "RetailD85CustomerDemo(returning_demo)"@, "RetailD85CustomerAddress(address_key)"@, "RetailD85DateDim(sold_date)"@, "RetailD85Reason(reason_key)"@];
    assert(m.body.map_values(|a: (Seq<char>, Seq<Seq<char>>)| atom_text(a)) =~= texts);
}

/// The atoms of the RetailD85 program joined by commas.
#[verifier::rlimit(60)]
#[verifier::spinoff_prover]
proof fn lemma_joined_retail_d85()
    ensures
        join_sep(seq!["RetailD85WebSales(order_number, item_key, web_page, sold_date)"@, "RetailD85WebReturns(order_number, item_key, refunded_demo, returning_demo, address_key, reason_key)"@, "RetailD85WebPage(web_page)"@, "RetailD85CustomerDemo(refunded_demo)"@, "RetailD85CustomerDemo(returning_demo)"@, "RetailD85CustomerAddress(address_key)"@, "RetailD85DateDim(sold_date)"@, "RetailD85Reason(reason_key)"@], ", "@) == "RetailD85WebSales(order_number, item_key, web_page, sold_date), RetailD85WebReturns(order_number, item_key, refunded_demo, returning_demo, address_key, reason_key), RetailD85WebPage(web_page), RetailD85CustomerDemo(refunded_demo), RetailD85CustomerDemo(returning_demo), RetailD85CustomerAddress(address_key), RetailD85DateDim(sold_date), RetailD85Reason(reason_key)"@,
{
    let texts = seq!["RetailD85WebSales(order_number, item_key, web_page, sold_date)"@, "RetailD85WebReturns(order_number, item_key, refunded_demo, returning_demo, address_key, reason_key)"@, "RetailD85WebPage(web_page)"@, "RetailD85CustomerDemo(refunded_demo)"@, "RetailD85CustomerDemo(returning_demo)"@, "RetailD85CustomerAddress(address_key)"@, "RetailD85DateDim(sold_date)"@, "RetailD85Reason(reason_key)"@];
    assert(join_sep(texts.take(1), ", "@) == "RetailD85WebSales(order_number, item_key, web_page, sold_date)"@);
    assert(join_sep(texts.take(2), ", "@) =~= "RetailD85WebSales(order_number, item_key, web_page, sold_date), RetailD85WebReturns(order_number, item_key, refunded_demo, returning_demo, address_key, reason_key)"@) by {
        assert(texts.take(2).drop_last() =~= texts.take(1));
        reveal_strlit(", ");
        reveal_strlit("RetailD85WebSales(order_number, item_key, web_page, sold_date)");
        reveal_strlit("RetailD85WebReturns(order_number, item_key, refunded_demo, returning_demo, address_key, reason_key)");
        reveal_strlit("RetailD85WebSales(order_number, item_key, web_page, sold_date), RetailD85WebReturns(order_number, item_key, refunded_demo, returning_demo, address_key, reason_key)");
    }
    assert(join_sep(texts.take(3), ", "@) =~= "RetailD85WebSales(order_number, item_key, web_page, sold_date), RetailD85WebReturns(order_number, item_key, refunded_demo, returning_demo, address_key, reason_key), RetailD85WebPage(web_page)"@) by {
        assert(texts.take(3).drop_last() =~= texts.take(2));
        reveal_strlit(", ");
        reveal_strlit("RetailD85WebSales(order_number, item_key, web_page, sold_date), RetailD85WebReturns(order_number, item_key, refunded_demo, returning_demo, address_key, reason_key)");
        reveal_strlit("RetailD85WebPage(web_page)");
        reveal_strlit("RetailD85WebSales(order_number, item_key, web_page, sold_date), RetailD85WebReturns(order_number, item_key, refunded_demo, returning_demo, address_key, reason_key), RetailD85WebPage(web_page)");
    }
    assert(join_sep(texts.take(4), ", "@) =~= "RetailD85WebSales(order_number, item_key, web_page, sold_date), RetailD85WebReturns(order_number, item_key, refunded_demo, returning_demo, address_key, reason_key), RetailD85WebPage(web_page), RetailD85CustomerDemo(refunded_demo)"@) by {
        assert(texts.take(4).drop_last() =~= texts.take(3));
        reveal_strlit(", ");
        reveal_strlit("RetailD85WebSales(order_number, item_key, web_page, sold_date), RetailD85WebReturns(order_number, item_key, refunded_demo, returning_demo, address_key, reason_key), RetailD85WebPage(web_page)");
        reveal_strlit("RetailD85CustomerDemo(refunded_demo)");
        reveal_strlit("RetailD85WebSales(order_number, item_key, web_page, sold_date), RetailD85WebReturns(order_number, item_key, refunded_demo, returning_demo, address_key, reason_key), RetailD85WebPage(web_page), RetailD85CustomerDemo(refunded_demo)");
    }
    assert(join_sep(texts.take(5), ", "@) =~= "RetailD85WebSales(order_number, item_key, web_page, sold_date), RetailD85WebReturns(order_number, item_key, refunded_demo, returning_demo, address_key, reason_key), RetailD85WebPage(web_page), RetailD85CustomerDemo(refunded_demo), RetailD85CustomerDemo(returning_demo)"@) by {
        assert(texts.take(5).drop_last() =~= texts.take(4));
        reveal_strlit(", ");
        reveal_strlit("RetailD85WebSales(order_number, item_key, web_page, sold_date), RetailD85WebReturns(order_number, item_key, refunded_demo, returning_demo, address_key, reason_key), RetailD85WebPage(web_page), RetailD85CustomerDemo(refunded_demo)");
        reveal_strlit("RetailD85CustomerDemo(returning_demo)");
        reveal_strlit("RetailD85WebSales(order_number, item_key, web_page, sold_date), RetailD85WebReturns(order_number, item_key, refunded_demo, returning_demo, address_key, reason_key), RetailD85WebPage(web_page), RetailD85CustomerDemo(refunded_demo), RetailD85CustomerDemo(returning_demo)");
    }
    assert(join_sep(texts.take(6), ", "@) =~= "RetailD85WebSales(order_number, item_key, web_page, sold_date), RetailD85WebReturns(order_number, item_key, refunded_demo, returning_demo, address_key, reason_key), RetailD85WebPage(web_page), RetailD85CustomerDemo(refunded_demo), RetailD85CustomerDemo(returning_demo), RetailD85CustomerAddress(address_key)"@) by {
        assert(texts.take(6).drop_last() =~= texts.take(5));
        reveal_strlit(", ");
        reveal_strlit("RetailD85WebSales(order_number, item_key, web_page, sold_date), RetailD85WebReturns(order_number, item_key, refunded_demo, returning_demo, address_key, reason_key), RetailD85WebPage(web_page), RetailD85CustomerDemo(refunded_demo), RetailD85CustomerDemo(returning_demo)");
        reveal_strlit("RetailD85CustomerAddress(address_key)");
        reveal_strlit("RetailD85WebSales(order_number, item_key, web_page, sold_date), RetailD85WebReturns(order_number, item_key, refunded_demo, returning_demo, address_key, reason_key), RetailD85WebPage(web_page), RetailD85CustomerDemo(refunded_demo), RetailD85CustomerDemo(returning_demo), RetailD85CustomerAddress(address_key)");
    }
    assert(join_sep(texts.take(7), ", "@) =~= "RetailD85WebSales(order_number, item_key, web_page, sold_date), RetailD85WebReturns(order_number, item_key, refunded_demo, returning_demo, address_key, reason_key), RetailD85WebPage(web_page), RetailD85CustomerDemo(refunded_demo), RetailD85CustomerDemo(returning_demo), RetailD85CustomerAddress(address_key), RetailD85DateDim(sold_date)"@) by {
        assert(texts.take(7).drop_last() =~= texts.take(6));
        reveal_strlit(", ");
        reveal_strlit("RetailD85WebSales(order_number, item_key, web_page, sold_date), RetailD85WebReturns(order_number, item_key, refunded_demo, returning_demo, address_key, reason_key), RetailD85WebPage(web_page), RetailD85CustomerDemo(refunded_demo), RetailD85CustomerDemo(returning_demo), RetailD85CustomerAddress(address_key)");
        reveal_strlit("RetailD85DateDim(sold_date)");
        reveal_strlit("RetailD85WebSales(order_number, item_key, web_page, sold_date), RetailD85WebReturns(order_number, item_key, refunded_demo, returning_demo, address_key, reason_key), RetailD85WebPage(web_page), RetailD85CustomerDemo(refunded_demo), RetailD85CustomerDemo(returning_demo), RetailD85CustomerAddress(address_key), RetailD85DateDim(sold_date)");
    }
    assert(join_sep(texts.take(8), ", "@) =~= "RetailD85WebSales(order_number, item_key, web_page, sold_date), RetailD85WebReturns(order_number, item_key, refunded_demo, returning_demo, address_key, reason_key), RetailD85WebPage(web_page), RetailD85CustomerDemo(refunded_demo), RetailD85CustomerDemo(returning_demo), RetailD85CustomerAddress(address_key), RetailD85DateDim(sold_date), RetailD85Reason(reason_key)"@) by {
        assert(texts.take(8).drop_last() =~= texts.take(7));
        reveal_strlit(", ");
        reveal_strlit("RetailD85WebSales(order_number, item_key, web_page, sold_date), RetailD85WebReturns(order_number, item_key, refunded_demo, returning_demo, address_key, reason_key), RetailD85WebPage(web_page), RetailD85CustomerDemo(refunded_demo), RetailD85CustomerDemo(returning_demo), RetailD85CustomerAddress(address_key), RetailD85DateDim(sold_date)");
        reveal_strlit("RetailD85Reason(reason_key)");
        reveal_strlit("RetailD85WebSales(order_number, item_key, web_page, sold_date), RetailD85WebReturns(order_number, item_key, refunded_demo, returning_demo, address_key, reason_key), RetailD85WebPage(web_page), RetailD85CustomerDemo(refunded_demo), RetailD85CustomerDemo(returning_demo), RetailD85CustomerAddress(address_key), RetailD85DateDim(sold_date), RetailD85Reason(reason_key)");
    }
    assert(texts.take(8) =~= texts);
}

/// The rule of the RetailD85 program is its query text's.
#[verifier::spinoff_prover]
proof fn lemma_rule_retail_d85()
    ensures
        rule_text(QueryProgram::RetailD85.module_spec()) == written_rule(QueryProgram::RetailD85),
{
    lemma_atoms_retail_d85();
    lemma_joined_retail_d85();
    let m = QueryProgram::RetailD85.module_spec();
    assert(rule_text(m) =~= written_rule(QueryProgram::RetailD85)) by {
        reveal_strlit("retail_d85_result(order_number, item_key, reason_key)");
        reveal_strlit(" :- ");
        reveal_strlit("RetailD85WebSales(order_number, item_key, web_page, sold_date), RetailD85WebReturns(order_number, item_key, refunded_demo, returning_demo, address_key, reason_key), RetailD85WebPage(web_page), RetailD85CustomerDemo(refunded_demo), RetailD85CustomerDemo(returning_demo), RetailD85CustomerAddress(address_key), RetailD85DateDim(sold_date), RetailD85Reason(reason_key)");
        reveal_strlit(".");
        reveal_strlit("retail_d85_result(order_number, item_key, reason_key) :- RetailD85WebSales(order_number, item_key, web_page, sold_date), RetailD85WebReturns(order_number, item_key, refunded_demo, returning_demo, address_key, reason_key), RetailD85WebPage(web_page), RetailD85CustomerDemo(refunded_demo), RetailD85CustomerDemo(returning_demo), RetailD85CustomerAddress(address_key), RetailD85DateDim(sold_date), RetailD85Reason(reason_key).");
    }
}

/// The declaration line of every input of a query.
pub open spec fn relation_lines(m: ModuleView) -> Seq<Seq<char>> {
    m.inputs.map_values(|d: (Seq<char>, nat)| relation_line(d))
}

/// The relation declarations of each catalog program in query notation,
/// in order.
pub open spec fn written_relations(program: QueryProgram) -> Seq<Seq<char>> {
    match program {
        QueryProgram::Intersection => seq!["relation Left(c0: i32);"@, "relation Right(c0: i32);"@],
        QueryProgram::CartesianProduct => seq!["relation A(c0: i32);"@, "relation B(c0: i32, c1: i32);"@],
        QueryProgram::OrientedChain => seq!["relation Edge(c0: i32, c1: i32);"@],
        QueryProgram::Claw => seq!["relation A(c0: i32, c1: i32);"@, "relation B(c0: i32, c1: i32);"@, "relation C(c0: i32, c1: i32);"@],
        QueryProgram::FactStar => seq!["relation Fact(c0: i32, c1: i32, c2: i32);"@, "relation DimA(c0: i32, c1: i32);"@, "relation DimB(c0: i32, c1: i32);"@, "relation DimC(c0: i32, c1: i32);"@],
        QueryProgram::Triangle => seq!["relation R(c0: i32, c1: i32);"@, "relation S(c0: i32, c1: i32);"@, "relation T(c0: i32, c1: i32);"@],
        QueryProgram::Cycle4 => seq!["relation R(c0: i32, c1: i32);"@, "relation S(c0: i32, c1: i32);"@, "relation T(c0: i32, c1: i32);"@, "relation U(c0: i32, c1: i32);"@],
        QueryProgram::Spade => seq!["relation R(c0: i32, c1: i32);"@, "relation S(c0: i32, c1: i32);"@, "relation T(c0: i32, c1: i32);"@, "relation H(c0: i32, c1: i32);"@],
        QueryProgram::Barbell => seq!["relation R(c0: i32, c1: i32);"@, "relation S(c0: i32, c1: i32);"@, "relation T(c0: i32, c1: i32);"@, "relation Bridge(c0: i32, c1: i32);"@, "relation U(c0: i32, c1: i32);"@, "relation V(c0: i32, c1: i32);"@, "relation W(c0: i32, c1: i32);"@],
        QueryProgram::LoomisWhitney4 => seq!["relation ABC(c0: i32, c1: i32, c2: i32);"@, "relation BCD(c0: i32, c1: i32, c2: i32);"@, "relation ACD(c0: i32, c1: i32, c2: i32);"@, "relation ABD(c0: i32, c1: i32, c2: i32);"@],
        QueryProgram::RetailH03 => seq!["relation RetailH03Customer(c0: i32, c1: i32);"@, "relation RetailH03Orders(c0: i32, c1: i32);"@, "relation RetailH03Lineitem(c0: i32, c1: i32, c2: i32, c3: i32);"@],
        QueryProgram::RetailH05 => seq!["relation RetailH05Customer(c0: i32, c1: i32);"@, "relation RetailH05Orders(c0: i32, c1: i32);"@, "relation RetailH05Lineitem(c0: i32, c1: i32, c2: i32, c3: i32);"@, "relation RetailH05Supplier(c0: i32, c1: i32);"@, "relation RetailH05Nation(c0: i32, c1: i32);"@, "relation RetailH05Region(c0: i32);"@],
        QueryProgram::RetailH07 => seq!["relation RetailH07Supplier(c0: i32, c1: i32);"@, "relation RetailH07Lineitem(c0: i32, c1: i32, c2: i32, c3: i32);"@, "relation RetailH07Orders(c0: i32, c1: i32);"@, "relation RetailH07Customer(c0: i32, c1: i32);"@, "relation RetailH07Nation(c0: i32, c1: i32);"@],
        QueryProgram::RetailH08 => seq!["relation RetailH08Lineitem(c0: i32, c1: i32, c2: i32, c3: i32);"@, "relation RetailH08Part(c0: i32);"@, "relation RetailH08Supplier(c0: i32, c1: i32);"@, "relation RetailH08Orders(c0: i32, c1: i32);"@, "relation RetailH08Customer(c0: i32, c1: i32);"@, "relation RetailH08Nation(c0: i32, c1: i32);"@, "relation RetailH08Region(c0: i32);"@],
        QueryProgram::RetailH09 => seq!["relation RetailH09Lineitem(c0: i32, c1: i32, c2: i32, c3: i32);"@, "relation RetailH09PartSupp(c0: i32, c1: i32);"@, "relation RetailH09Part(c0: i32);"@, "relation RetailH09Supplier(c0: i32, c1: i32);"@, "relation RetailH09Orders(c0: i32, c1: i32);"@, "relation RetailH09Nation(c0: i32, c1: i32);"@],
        QueryProgram::RetailH21Positive => seq!["relation RetailH21PositiveSupplier(c0: i32, c1: i32);"@, "relation RetailH21PositiveLineitem(c0: i32, c1: i32, c2: i32, c3: i32);"@, "relation RetailH21PositiveOrders(c0: i32, c1: i32);"@, "relation RetailH21PositiveNation(c0: i32, c1: i32);"@],
        QueryProgram::RetailD19 => seq!["relation RetailD19StoreSales(c0: i32, c1: i32, c2: i32, c3: i32, c4: i32);"@, "relation RetailD19DateDim(c0: i32);"@, "relation RetailD19Item(c0: i32);"@, "relation RetailD19Customer(c0: i32, c1: i32);"@, "relation RetailD19CustomerAddress(c0: i32);"@, "relation RetailD19Store(c0: i32);"@],
        QueryProgram::RetailD27 => seq!["relation RetailD27StoreSales(c0: i32, c1: i32, c2: i32, c3: i32, c4: i32);"@, "relation RetailD27DateDim(c0: i32);"@, "relation RetailD27Item(c0: i32);"@, "relation RetailD27Store(c0: i32);"@, "relation RetailD27CustomerDemo(c0: i32);"@],
        QueryProgram::RetailD72Inner => seq!["relation RetailD72InnerCatalogSales(c0: i32, c1: i32, c2: i32, c3: i32, c4: i32, c5: i32);"@, "relation RetailD72InnerDateDim(c0: i32, c1: i32);"@, "relation RetailD72InnerInventory(c0: i32, c1: i32, c2: i32);"@, "relation RetailD72InnerWarehouse(c0: i32);"@, "relation RetailD72InnerItem(c0: i32);"@, "relation RetailD72InnerCustomerDemo(c0: i32);"@, "relation RetailD72InnerHouseholdDemo(c0: i32);"@],
        QueryProgram::RetailD85 => seq!["relation RetailD85WebSales(c0: i32, c1: i32, c2: i32, c3: i32);"@, "relation RetailD85WebReturns(c0: i32, c1: i32, c2: i32, c3: i32, c4: i32, c5: i32);"@, "relation RetailD85WebPage(c0: i32);"@, "relation RetailD85CustomerDemo(c0: i32);"@, "relation RetailD85CustomerAddress(c0: i32);"@, "relation RetailD85DateDim(c0: i32);"@, "relation RetailD85Reason(c0: i32);"@],
    }
}

/// The column declarations of a relation with one column.
#[verifier::spinoff_prover]
proof fn lemma_columns_1()
    ensures
        column_declarations(1) == "c0: i32"@,
{
    let parts = Seq::new(1nat, |c: int| "c"@ + dec_nat(c as nat) + ": i32"@);
    assert(column_declarations(1) == join_sep(parts, ", "@));
    assert(parts[0] =~= "c0: i32"@) by {
        reveal_strlit("c");
        reveal_strlit(": i32");
        reveal_strlit("c0: i32");
        assert(dec_nat(0) =~= seq![digit_char(0)]);
    }
    let texts = seq!["c0: i32"@];
    assert(parts =~= texts);
    assert(join_sep(texts.take(1), ", "@) == "c0: i32"@);
    assert(texts.take(1) =~= texts);
}

/// The column declarations of a relation with two columns.
#[verifier::spinoff_prover]
proof fn lemma_columns_2()
    ensures
        column_declarations(2) == "c0: i32, c1: i32"@,
{
    let parts = Seq::new(2nat, |c: int| "c"@ + dec_nat(c as nat) + ": i32"@);
    assert(column_declarations(2) == join_sep(parts, ", "@));
    assert(parts[0] =~= "c0: i32"@) by {
        reveal_strlit("c");
        reveal_strlit(": i32");
        reveal_strlit("c0: i32");
        assert(dec_nat(0) =~= seq![digit_char(0)]);
    }
    assert(parts[1] =~= "c1: i32"@) by {
        reveal_strlit("c");
        reveal_strlit(": i32");
        reveal_strlit("c1: i32");
        assert(dec_nat(1) =~= seq![digit_char(1)]);
    }
    let texts = seq!["c0: i32"@, "c1: i32"@];
    assert(parts =~= texts);
    assert(join_sep(texts.take(1), ", "@) == "c0: i32"@);
    assert(join_sep(texts.take(2), ", "@) =~= "c0: i32, c1: i32"@) by {
        assert(texts.take(2).drop_last() =~= texts.take(1));
        reveal_strlit(", ");
        reveal_strlit("c0: i32");
        reveal_strlit("c1: i32");
        reveal_strlit("c0: i32, c1: i32");
    }
    assert(texts.take(2) =~= texts);
}

/// The column declarations of a relation with three columns.
#[verifier::spinoff_prover]
proof fn lemma_columns_3()
    ensures
        column_declarations(3) == "c0: i32, c1: i32, c2: i32"@,
{
    let parts = Seq::new(3nat, |c: int| "c"@ + dec_nat(c as nat) + ": i32"@);
    assert(column_declarations(3) == join_sep(parts, ", "@));
    assert(parts[0] =~= "c0: i32"@) by {
        reveal_strlit("c");
        reveal_strlit(": i32");
        reveal_strlit("c0: i32");
        assert(dec_nat(0) =~= seq![digit_char(0)]);
    }
    assert(parts[1] =~= "c1: i32"@) by {
        reveal_strlit("c");
        reveal_strlit(": i32");
        reveal_strlit("c1: i32");
        assert(dec_nat(1) =~= seq![digit_char(1)]);
    }
    assert(parts[2] =~= "c2: i32"@) by {
        reveal_strlit("c");
        reveal_strlit(": i32");
        reveal_strlit("c2: i32");
        assert(dec_nat(2) =~= seq![digit_char(2)]);
    }
    let texts = seq!["c0: i32"@, "c1: i32"@, "c2: i32"@];
    assert(parts =~= texts);
    assert(join_sep(texts.take(1), ", "@) == "c0: i32"@);
    assert(join_sep(texts.take(2), ", "@) =~= "c0: i32, c1: i32"@) by {
        assert(texts.take(2).drop_last() =~= texts.take(1));
        reveal_strlit(", ");
        reveal_strlit("c0: i32");
        reveal_strlit("c1: i32");
        reveal_strlit("c0: i32, c1: i32");
    }
    assert(join_sep(texts.take(3), ", "@) =~= "c0: i32, c1: i32, c2: i32"@) by {
        assert(texts.take(3).drop_last() =~= texts.take(2));
        reveal_strlit(", ");
        reveal_strlit("c0: i32, c1: i32");
        reveal_strlit("c2: i32");
        reveal_strlit("c0: i32, c1: i32, c2: i32");
    }
    assert(texts.take(3) =~= texts);
}

/// The column declarations of a relation with four columns.
#[verifier::spinoff_prover]
proof fn lemma_columns_4()
    ensures
        column_declarations(4) == "c0: i32, c1: i32, c2: i32, c3: i32"@,
{
    let parts = Seq::new(4nat, |c: int| "c"@ + dec_nat(c as nat) + ": i32"@);
    assert(column_declarations(4) == join_sep(parts, ", "@));
    assert(parts[0] =~= "c0: i32"@) by {
        reveal_strlit("c");
        reveal_strlit(": i32");
        reveal_strlit("c0: i32");
        assert(dec_nat(0) =~= seq![digit_char(0)]);
    }
    assert(parts[1] =~= "c1: i32"@) by {
        reveal_strlit("c");
        reveal_strlit(": i32");
        reveal_strlit("c1: i32");
        assert(dec_nat(1) =~= seq![digit_char(1)]);
    }
    assert(parts[2] =~= "c2: i32"@) by {
        reveal_strlit("c");
        reveal_strlit(": i32");
        reveal_strlit("c2: i32");
        assert(dec_nat(2) =~= seq![digit_char(2)]);
    }
    assert(parts[3] =~= "c3: i32"@) by {
        reveal_strlit("c");
        reveal_strlit(": i32");
        reveal_strlit("c3: i32");
        assert(dec_nat(3) =~= seq![digit_char(3)]);
    }
    let texts = seq!["c0: i32"@, "c1: i32"@, "c2: i32"@, "c3: i32"@];
    assert(parts =~= texts);
    assert(join_sep(texts.take(1), ", "@) == "c0: i32"@);
    assert(join_sep(texts.take(2), ", "@) =~= "c0: i32, c1: i32"@) by {
        assert(texts.take(2).drop_last() =~= texts.take(1));
        reveal_strlit(", ");
        reveal_strlit("c0: i32");
        reveal_strlit("c1: i32");
        reveal_strlit("c0: i32, c1: i32");
    }
    assert(join_sep(texts.take(3), ", "@) =~= "c0: i32, c1: i32, c2: i32"@) by {
        assert(texts.take(3).drop_last() =~= texts.take(2));
        reveal_strlit(", ");
        reveal_strlit("c0: i32, c1: i32");
        reveal_strlit("c2: i32");
        reveal_strlit("c0: i32, c1: i32, c2: i32");
    }
    assert(join_sep(texts.take(4), ", "@) =~= "c0: i32, c1: i32, c2: i32, c3: i32"@) by {
        assert(texts.take(4).drop_last() =~= texts.take(3));
        reveal_strlit(", ");
        reveal_strlit("c0: i32, c1: i32, c2: i32");
        reveal_strlit("c3: i32");
        reveal_strlit("c0: i32, c1: i32, c2: i32, c3: i32");
    }
    assert(texts.take(4) =~= texts);
}

/// The column declarations of a relation with five columns.
#[verifier::spinoff_prover]
proof fn lemma_columns_5()
    ensures
        column_declarations(5) == "c0: i32, c1: i32, c2: i32, c3: i32, c4: i32"@,
{
    let parts = Seq::new(5nat, |c: int| "c"@ + dec_nat(c as nat) + ": i32"@);
    assert(column_declarations(5) == join_sep(parts, ", "@));
    assert(parts[0] =~= "c0: i32"@) by {
        reveal_strlit("c");
        reveal_strlit(": i32");
        reveal_strlit("c0: i32");
        assert(dec_nat(0) =~= seq![digit_char(0)]);
    }
    assert(parts[1] =~= "c1: i32"@) by {
        reveal_strlit("c");
        reveal_strlit(": i32");
        reveal_strlit("c1: i32");
        assert(dec_nat(1) =~= seq![digit_char(1)]);
    }
    assert(parts[2] =~= "c2: i32"@) by {
        reveal_strlit("c");
        reveal_strlit(": i32");
        reveal_strlit("c2: i32");
        assert(dec_nat(2) =~= seq![digit_char(2)]);
    }
    assert(parts[3] =~= "c3: i32"@) by {
        reveal_strlit("c");
        reveal_strlit(": i32");
        reveal_strlit("c3: i32");
        assert(dec_nat(3) =~= seq![digit_char(3)]);
    }
    assert(parts[4] =~= "c4: i32"@) by {
        reveal_strlit("c");
        reveal_strlit(": i32");
        reveal_strlit("c4: i32");
        assert(dec_nat(4) =~= seq![digit_char(4)]);
    }
    let texts = seq!["c0: i32"@, "c1: i32"@, "c2: i32"@, "c3: i32"@, "c4: i32"@];
    assert(parts =~= texts);
    assert(join_sep(texts.take(1), ", "@) == "c0: i32"@);
    assert(join_sep(texts.take(2), ", "@) =~= "c0: i32, c1: i32"@) by {
        assert(texts.take(2).drop_last() =~= texts.take(1));
        reveal_strlit(", ");
        reveal_strlit("c0: i32");
        reveal_strlit("c1: i32");
        reveal_strlit("c0: i32, c1: i32");
    }
    assert(join_sep(texts.take(3), ", "@) =~= "c0: i32, c1: i32, c2: i32"@) by {
        assert(texts.take(3).drop_last() =~= texts.take(2));
        reveal_strlit(", ");
        reveal_strlit("c0: i32, c1: i32");
        reveal_strlit("c2: i32");
        reveal_strlit("c0: i32, c1: i32, c2: i32");
    }
    assert(join_sep(texts.take(4), ", "@) =~= "c0: i32, c1: i32, c2: i32, c3: i32"@) by {
        assert(texts.take(4).drop_last() =~= texts.take(3));
        reveal_strlit(", ");
        reveal_strlit("c0: i32, c1: i32, c2: i32");
        reveal_strlit("c3: i32");
        reveal_strlit("c0: i32, c1: i32, c2: i32, c3: i32");
    }
    assert(join_sep(texts.take(5), ", "@) =~= "c0: i32, c1: i32, c2: i32, c3: i32, c4: i32"@) by {
        assert(texts.take(5).drop_last() =~= texts.take(4));
        reveal_strlit(", ");
        reveal_strlit("c0: i32, c1: i32, c2: i32, c3: i32");
        reveal_strlit("c4: i32");
        reveal_strlit("c0: i32, c1: i32, c2: i32, c3: i32, c4: i32");
    }
    assert(texts.take(5) =~= texts);
}

/// The column declarations of a relation with six columns.
#[verifier::spinoff_prover]
proof fn lemma_columns_6()
    ensures
        column_declarations(6) == "c0: i32, c1: i32, c2: i32, c3: i32, c4: i32, c5: i32"@,
{
    let parts = Seq::new(6nat, |c: int| "c"@ + dec_nat(c as nat) + ": i32"@);
    assert(column_declarations(6) == join_sep(parts, ", "@));
    assert(parts[0] =~= "c0: i32"@) by {
        reveal_strlit("c");
        reveal_strlit(": i32");
        reveal_strlit("c0: i32");
        assert(dec_nat(0) =~= seq![digit_char(0)]);
    }
    assert(parts[1] =~= "c1: i32"@) by {
        reveal_strlit("c");
        reveal_strlit(": i32");
        reveal_strlit("c1: i32");
        assert(dec_nat(1) =~= seq![digit_char(1)]);
    }
    assert(parts[2] =~= "c2: i32"@) by {
        reveal_strlit("c");
        reveal_strlit(": i32");
        reveal_strlit("c2: i32");
        assert(dec_nat(2) =~= seq![digit_char(2)]);
    }
    assert(parts[3] =~= "c3: i32"@) by {
        reveal_strlit("c");
        reveal_strlit(": i32");
        reveal_strlit("c3: i32");
        assert(dec_nat(3) =~= seq![digit_char(3)]);
    }
    assert(parts[4] =~= "c4: i32"@) by {
        reveal_strlit("c");
        reveal_strlit(": i32");
        reveal_strlit("c4: i32");
        assert(dec_nat(4) =~= seq![digit_char(4)]);
    }
    assert(parts[5] =~= "c5: i32"@) by {
        reveal_strlit("c");
        reveal_strlit(": i32");
        reveal_strlit("c5: i32");
        assert(dec_nat(5) =~= seq![digit_char(5)]);
    }
    let texts = seq!["c0: i32"@, "c1: i32"@, "c2: i32"@, "c3: i32"@, "c4: i32"@, "c5: i32"@];
    assert(parts =~= texts);
    assert(join_sep(texts.take(1), ", "@) == "c0: i32"@);
    assert(join_sep(texts.take(2), ", "@) =~= "c0: i32, c1: i32"@) by {
        assert(texts.take(2).drop_last() =~= texts.take(1));
        reveal_strlit(", ");
        reveal_strlit("c0: i32");
        reveal_strlit("c1: i32");
        reveal_strlit("c0: i32, c1: i32");
    }
    assert(join_sep(texts.take(3), ", "@) =~= "c0: i32, c1: i32, c2: i32"@) by {
        assert(texts.take(3).drop_last() =~= texts.take(2));
        reveal_strlit(", ");
        reveal_strlit("c0: i32, c1: i32");
        reveal_strlit("c2: i32");
        reveal_strlit("c0: i32, c1: i32, c2: i32");
    }
    assert(join_sep(texts.take(4), ", "@) =~= "c0: i32, c1: i32, c2: i32, c3: i32"@) by {
        assert(texts.take(4).drop_last() =~= texts.take(3));
        reveal_strlit(", ");
        reveal_strlit("c0: i32, c1: i32, c2: i32");
        reveal_strlit("c3: i32");
        reveal_strlit("c0: i32, c1: i32, c2: i32, c3: i32");
    }
    assert(join_sep(texts.take(5), ", "@) =~= "c0: i32, c1: i32, c2: i32, c3: i32, c4: i32"@) by {
        assert(texts.take(5).drop_last() =~= texts.take(4));
        reveal_strlit(", ");
        reveal_strlit("c0: i32, c1: i32, c2: i32, c3: i32");
        reveal_strlit("c4: i32");
        reveal_strlit("c0: i32, c1: i32, c2: i32, c3: i32, c4: i32");
    }
    assert(join_sep(texts.take(6), ", "@) =~= "c0: i32, c1: i32, c2: i32, c3: i32, c4: i32, c5: i32"@) by {
        assert(texts.take(6).drop_last() =~= texts.take(5));
        reveal_strlit(", ");
        reveal_strlit("c0: i32, c1: i32, c2: i32, c3: i32, c4: i32");
        reveal_strlit("c5: i32");
        reveal_strlit("c0: i32, c1: i32, c2: i32, c3: i32, c4: i32, c5: i32");
    }
    assert(texts.take(6) =~= texts);
}

/// The relation declarations of the Intersection program are its query text's.
#[verifier::rlimit(60)]
#[verifier::spinoff_prover]
proof fn lemma_relations_intersection()
    ensures
        relation_lines(QueryProgram::Intersection.module_spec()) == written_relations(QueryProgram::Intersection),
{
    let m = QueryProgram::Intersection.module_spec();
    lemma_columns_1();
    assert(relation_line(m.inputs[0]) =~= "relation Left(c0: i32);"@) by {
        reveal_strlit("relation ");
        reveal_strlit("Left");
        reveal_strlit("(");
        reveal_strlit("c0: i32");
        reveal_strlit(");");
        reveal_strlit("relation Left(c0: i32);");
    }
    assert(relation_line(m.inputs[1]) =~= "relation Right(c0: i32);"@) by {
        reveal_strlit("relation ");
        reveal_strlit("Right");
        reveal_strlit("(");
        reveal_strlit("c0: i32");
        reveal_strlit(");");
        reveal_strlit("relation Right(c0: i32);");
    }
    assert(relation_lines(m) =~= written_relations(QueryProgram::Intersection));
}

/// The relation declarations of the CartesianProduct program are its query text's.
#[verifier::rlimit(60)]
#[verifier::spinoff_prover]
proof fn lemma_relations_cartesian_product()
    ensures
        relation_lines(QueryProgram::CartesianProduct.module_spec()) == written_relations(QueryProgram::CartesianProduct),
{
    let m = QueryProgram::CartesianProduct.module_spec();
    lemma_columns_1();
    lemma_columns_2();
    assert(relation_line(m.inputs[0]) =~= "relation A(c0: i32);"@) by {
        reveal_strlit("relation ");
        reveal_strlit("A");
        reveal_strlit("(");
        reveal_strlit("c0: i32");
        reveal_strlit(");");
        reveal_strlit("relation A(c0: i32);");
    }
    assert(relation_line(m.inputs[1]) =~= "relation B(c0: i32, c1: i32);"@) by {
        reveal_strlit("relation ");
        reveal_strlit("B");
        reveal_strlit("(");
        reveal_strlit("c0: i32, c1: i32");
        reveal_strlit(");");
        reveal_strlit("relation B(c0: i32, c1: i32);");
    }
    assert(relation_lines(m) =~= written_relations(QueryProgram::CartesianProduct));
}

/// The relation declarations of the OrientedChain program are its query text's.
#[verifier::rlimit(60)]
#[verifier::spinoff_prover]
proof fn lemma_relations_oriented_chain()
    ensures
        relation_lines(QueryProgram::OrientedChain.module_spec()) == written_relations(QueryProgram::OrientedChain),
{
    let m = QueryProgram::OrientedChain.module_spec();
    lemma_columns_2();
    assert(relation_line(m.inputs[0]) =~= "relation Edge(c0: i32, c1: i32);"@) by {
        reveal_strlit("relation ");
        reveal_strlit("Edge");
        reveal_strlit("(");
        reveal_strlit("c0: i32, c1: i32");
        reveal_strlit(");");
        reveal_strlit("relation Edge(c0: i32, c1: i32);");
    }
    assert(relation_lines(m) =~= written_relations(QueryProgram::OrientedChain));
}

/// The relation declarations of the Claw program are its query text's.
#[verifier::rlimit(60)]
#[verifier::spinoff_prover]
proof fn lemma_relations_claw()
    ensures
        relation_lines(QueryProgram::Claw.module_spec()) == written_relations(QueryProgram::Claw),
{
    let m = QueryProgram::Claw.module_spec();
    lemma_columns_2();
    assert(relation_line(m.inputs[0]) =~= "relation A(c0: i32, c1: i32);"@) by {
        reveal_strlit("relation ");
        reveal_strlit("A");
        reveal_strlit("(");
        reveal_strlit("c0: i32, c1: i32");
        reveal_strlit(");");
        reveal_strlit("relation A(c0: i32, c1: i32);");
    }
    assert(relation_line(m.inputs[1]) =~= "relation B(c0: i32, c1: i32);"@) by {
        reveal_strlit("relation ");
        reveal_strlit("B");
        reveal_strlit("(");
        reveal_strlit("c0: i32, c1: i32");
        reveal_strlit(");");
        reveal_strlit("relation B(c0: i32, c1: i32);");
    }
    assert(relation_line(m.inputs[2]) =~= "relation C(c0: i32, c1: i32);"@) by {
        reveal_strlit("relation ");
        reveal_strlit("C");
        reveal_strlit("(");
        reveal_strlit("c0: i32, c1: i32");
        reveal_strlit(");");
        reveal_strlit("relation C(c0: i32, c1: i32);");
    }
    assert(relation_lines(m) =~= written_relations(QueryProgram::Claw));
}

/// The relation declarations of the FactStar program are its query text's.
#[verifier::rlimit(60)]
#[verifier::spinoff_prover]
proof fn lemma_relations_fact_star()
    ensures
        relation_lines(QueryProgram::FactStar.module_spec()) == written_relations(QueryProgram::FactStar),
{
    let m = QueryProgram::FactStar.module_spec();
    lemma_columns_2();
    lemma_columns_3();
    assert(relation_line(m.inputs[0]) =~= "relation Fact(c0: i32, c1: i32, c2: i32);"@) by {
        reveal_strlit("relation ");
        reveal_strlit("Fact");
        reveal_strlit("(");
        reveal_strlit("c0: i32, c1: i32, c2: i32");
        reveal_strlit(");");
        reveal_strlit("relation Fact(c0: i32, c1: i32, c2: i32);");
    }
    assert(relation_line(m.inputs[1]) =~= "relation DimA(c0: i32, c1: i32);"@) by {
        reveal_strlit("relation ");
        reveal_strlit("DimA");
        reveal_strlit("(");
        reveal_strlit("c0: i32, c1: i32");
        reveal_strlit(");");
        reveal_strlit("relation DimA(c0: i32, c1: i32);");
    }
    assert(relation_line(m.inputs[2]) =~= "relation DimB(c0: i32, c1: i32);"@) by {
        reveal_strlit("relation ");
        reveal_strlit("DimB");
        reveal_strlit("(");
        reveal_strlit("c0: i32, c1: i32");
        reveal_strlit(");");
        reveal_strlit("relation DimB(c0: i32, c1: i32);");
    }
    assert(relation_line(m.inputs[3]) =~= "relation DimC(c0: i32, c1: i32);"@) by {
        reveal_strlit("relation ");
        reveal_strlit("DimC");
        reveal_strlit("(");
        reveal_strlit("c0: i32, c1: i32");
        reveal_strlit(");");
        reveal_strlit("relation DimC(c0: i32, c1: i32);");
    }
    assert(relation_lines(m) =~= written_relations(QueryProgram::FactStar));
}

/// The relation declarations of the Triangle program are its query text's.
#[verifier::rlimit(60)]
#[verifier::spinoff_prover]
proof fn lemma_relations_triangle()
    ensures
        relation_lines(QueryProgram::Triangle.module_spec()) == written_relations(QueryProgram::Triangle),
{
    let m = QueryProgram::Triangle.module_spec();
    lemma_columns_2();
    assert(relation_line(m.inputs[0]) =~= "relation R(c0: i32, c1: i32);"@) by {
        reveal_strlit("relation ");
        reveal_strlit("R");
        reveal_strlit("(");
        reveal_strlit("c0: i32, c1: i32");
        reveal_strlit(");");
        reveal_strlit("relation R(c0: i32, c1: i32);");
    }
    assert(relation_line(m.inputs[1]) =~= "relation S(c0: i32, c1: i32);"@) by {
        reveal_strlit("relation ");
        reveal_strlit("S");
        reveal_strlit("(");
        reveal_strlit("c0: i32, c1: i32");
        reveal_strlit(");");
        reveal_strlit("relation S(c0: i32, c1: i32);");
    }
    assert(relation_line(m.inputs[2]) =~= "relation T(c0: i32, c1: i32);"@) by {
        reveal_strlit("relation ");
        reveal_strlit("T");
        reveal_strlit("(");
        reveal_strlit("c0: i32, c1: i32");
        reveal_strlit(");");
        reveal_strlit("relation T(c0: i32, c1: i32);");
    }
    assert(relation_lines(m) =~= written_relations(QueryProgram::Triangle));
}

/// The relation declarations of the Cycle4 program are its query text's.
#[verifier::rlimit(60)]
#[verifier::spinoff_prover]
proof fn lemma_relations_cycle_4()
    ensures
        relation_lines(QueryProgram::Cycle4.module_spec()) == written_relations(QueryProgram::Cycle4),
{
    let m = QueryProgram::Cycle4.module_spec();
    lemma_columns_2();
    assert(relation_line(m.inputs[0]) =~= "relation R(c0: i32, c1: i32);"@) by {
        reveal_strlit("relation ");
        reveal_strlit("R");
        reveal_strlit("(");
        reveal_strlit("c0: i32, c1: i32");
        reveal_strlit(");");
        reveal_strlit("relation R(c0: i32, c1: i32);");
    }
    assert(relation_line(m.inputs[1]) =~= "relation S(c0: i32, c1: i32);"@) by {
        reveal_strlit("relation ");
        reveal_strlit("S");
        reveal_strlit("(");
        reveal_strlit("c0: i32, c1: i32");
        reveal_strlit(");");
        reveal_strlit("relation S(c0: i32, c1: i32);");
    }
    assert(relation_line(m.inputs[2]) =~= "relation T(c0: i32, c1: i32);"@) by {
        reveal_strlit("relation ");
        reveal_strlit("T");
        reveal_strlit("(");
        reveal_strlit("c0: i32, c1: i32");
        reveal_strlit(");");
        reveal_strlit("relation T(c0: i32, c1: i32);");
    }
    assert(relation_line(m.inputs[3]) =~= "relation U(c0: i32, c1: i32);"@) by {
        reveal_strlit("relation ");
        reveal_strlit("U");
        reveal_strlit("(");
        reveal_strlit("c0: i32, c1: i32");
        reveal_strlit(");");
        reveal_strlit("relation U(c0: i32, c1: i32);");
    }
    assert(relation_lines(m) =~= written_relations(QueryProgram::Cycle4));
}

/// The relation declarations of the Spade program are its query text's.
#[verifier::rlimit(60)]
#[verifier::spinoff_prover]
proof fn lemma_relations_spade()
    ensures
        relation_lines(QueryProgram::Spade.module_spec()) == written_relations(QueryProgram::Spade),
{
    let m = QueryProgram::Spade.module_spec();
    lemma_columns_2();
    assert(relation_line(m.inputs[0]) =~= "relation R(c0: i32, c1: i32);"@) by {
        reveal_strlit("relation ");
        reveal_strlit("R");
        reveal_strlit("(");
        reveal_strlit("c0: i32, c1: i32");
        reveal_strlit(");");
        reveal_strlit("relation R(c0: i32, c1: i32);");
    }
    assert(relation_line(m.inputs[1]) =~= "relation S(c0: i32, c1: i32);"@) by {
        reveal_strlit("relation ");
        reveal_strlit("S");
        reveal_strlit("(");
        reveal_strlit("c0: i32, c1: i32");
        reveal_strlit(");");
        reveal_strlit("relation S(c0: i32, c1: i32);");
    }
    assert(relation_line(m.inputs[2]) =~= "relation T(c0: i32, c1: i32);"@) by {
        reveal_strlit("relation ");
        reveal_strlit("T");
        reveal_strlit("(");
        reveal_strlit("c0: i32, c1: i32");
        reveal_strlit(");");
        reveal_strlit("relation T(c0: i32, c1: i32);");
    }
    assert(relation_line(m.inputs[3]) =~= "relation H(c0: i32, c1: i32);"@) by {
        reveal_strlit("relation ");
        reveal_strlit("H");
        reveal_strlit("(");
        reveal_strlit("c0: i32, c1: i32");
        reveal_strlit(");");
        reveal_strlit("relation H(c0: i32, c1: i32);");
    }
    assert(relation_lines(m) =~= written_relations(QueryProgram::Spade));
}

/// The relation declarations of the Barbell program are its query text's.
#[verifier::rlimit(60)]
#[verifier::spinoff_prover]
proof fn lemma_relations_barbell()
    ensures
        relation_lines(QueryProgram::Barbell.module_spec()) == written_relations(QueryProgram::Barbell),
{
    let m = QueryProgram::Barbell.module_spec();
    lemma_columns_2();
    assert(relation_line(m.inputs[0]) =~= "relation R(c0: i32, c1: i32);"@) by {
        reveal_strlit("relation ");
        reveal_strlit("R");
        reveal_strlit("(");
        reveal_strlit("c0: i32, c1: i32");
        reveal_strlit(");");
        reveal_strlit("relation R(c0: i32, c1: i32);");
    }
    assert(relation_line(m.inputs[1]) =~= "relation S(c0: i32, c1: i32);"@) by {
        reveal_strlit("relation ");
        reveal_strlit("S");
        reveal_strlit("(");
        reveal_strlit("c0: i32, c1: i32");
        reveal_strlit(");");
        reveal_strlit("relation S(c0: i32, c1: i32);");
    }
    assert(relation_line(m.inputs[2]) =~= "relation T(c0: i32, c1: i32);"@) by {
        reveal_strlit("relation ");
        reveal_strlit("T");
        reveal_strlit("(");
        reveal_strlit("c0: i32, c1: i32");
        reveal_strlit(");");
        reveal_strlit("relation T(c0: i32, c1: i32);");
    }
    assert(relation_line(m.inputs[3]) =~= "relation Bridge(c0: i32, c1: i32);"@) by {
        reveal_strlit("relation ");
        reveal_strlit("Bridge");
        reveal_strlit("(");
        reveal_strlit("c0: i32, c1: i32");
        reveal_strlit(");");
        reveal_strlit("relation Bridge(c0: i32, c1: i32);");
    }
    assert(relation_line(m.inputs[4]) =~= "relation U(c0: i32, c1: i32);"@) by {
        reveal_strlit("relation ");
        reveal_strlit("U");
        reveal_strlit("(");
        reveal_strlit("c0: i32, c1: i32");
        reveal_strlit(");");
        reveal_strlit("relation U(c0: i32, c1: i32);");
    }
    assert(relation_line(m.inputs[5]) =~= "relation V(c0: i32, c1: i32);"@) by {
        reveal_strlit("relation ");
        reveal_strlit("V");
        reveal_strlit("(");
        reveal_strlit("c0: i32, c1: i32");
        reveal_strlit(");");
        reveal_strlit("relation V(c0: i32, c1: i32);");
    }
    assert(relation_line(m.inputs[6]) =~= "relation W(c0: i32, c1: i32);"@) by {
        reveal_strlit("relation ");
        reveal_strlit("W");
        reveal_strlit("(");
        reveal_strlit("c0: i32, c1: i32");
        reveal_strlit(");");
        reveal_strlit("relation W(c0: i32, c1: i32);");
    }
    assert(relation_lines(m) =~= written_relations(QueryProgram::Barbell));
}

/// The relation declarations of the LoomisWhitney4 program are its query text's.
#[verifier::rlimit(60)]
#[verifier::spinoff_prover]
proof fn lemma_relations_loomis_whitney_4()
    ensures
        relation_lines(QueryProgram::LoomisWhitney4.module_spec()) == written_relations(QueryProgram::LoomisWhitney4),
{
    let m = QueryProgram::LoomisWhitney4.module_spec();
    lemma_columns_3();
    assert(relation_line(m.inputs[0]) =~= "relation ABC(c0: i32, c1: i32, c2: i32);"@) by {
        reveal_strlit("relation ");
        reveal_strlit("ABC");
        reveal_strlit("(");
        reveal_strlit("c0: i32, c1: i32, c2: i32");
        reveal_strlit(");");
        reveal_strlit("relation ABC(c0: i32, c1: i32, c2: i32);");
    }
    assert(relation_line(m.inputs[1]) =~= "relation BCD(c0: i32, c1: i32, c2: i32);"@) by {
        reveal_strlit("relation ");
        reveal_strlit("BCD");
        reveal_strlit("(");
        reveal_strlit("c0: i32, c1: i32, c2: i32");
        reveal_strlit(");");
        reveal_strlit("relation BCD(c0: i32, c1: i32, c2: i32);");
    }
    assert(relation_line(m.inputs[2]) =~= "relation ACD(c0: i32, c1: i32, c2: i32);"@) by {
        reveal_strlit("relation ");
        reveal_strlit("ACD");
        reveal_strlit("(");
        reveal_strlit("c0: i32, c1: i32, c2: i32");
        reveal_strlit(");");
        reveal_strlit("relation ACD(c0: i32, c1: i32, c2: i32);");
    }
    assert(relation_line(m.inputs[3]) =~= "relation ABD(c0: i32, c1: i32, c2: i32);"@) by {
        reveal_strlit("relation ");
        reveal_strlit("ABD");
        reveal_strlit("(");
        reveal_strlit("c0: i32, c1: i32, c2: i32");
        reveal_strlit(");");
        reveal_strlit("relation ABD(c0: i32, c1: i32, c2: i32);");
    }
    assert(relation_lines(m) =~= written_relations(QueryProgram::LoomisWhitney4));
}

/// The relation declarations of the RetailH03 program are its query text's.
#[verifier::rlimit(60)]
#[verifier::spinoff_prover]
proof fn lemma_relations_retail_h03()
    ensures
        relation_lines(QueryProgram::RetailH03.module_spec()) == written_relations(QueryProgram::RetailH03),
{
    let m = QueryProgram::RetailH03.module_spec();
    lemma_columns_2();
    lemma_columns_4();
    assert(relation_line(m.inputs[0]) =~= "relation RetailH03Customer(c0: i32, c1: i32);"@) by {
        reveal_strlit("relation ");
        reveal_strlit("RetailH03Customer");
        reveal_strlit("(");
        reveal_strlit("c0: i32, c1: i32");
        reveal_strlit(");");
        reveal_strlit("relation RetailH03Customer(c0: i32, c1: i32);");
    }
    assert(relation_line(m.inputs[1]) =~= "relation RetailH03Orders(c0: i32, c1: i32);"@) by {
        reveal_strlit("relation ");
        reveal_strlit("RetailH03Orders");
        reveal_strlit("(");
        reveal_strlit("c0: i32, c1: i32");
        reveal_strlit(");");
        reveal_strlit("relation RetailH03Orders(c0: i32, c1: i32);");
    }
    assert(relation_line(m.inputs[2]) =~= "relation RetailH03Lineitem(c0: i32, c1: i32, c2: i32, c3: i32);"@) by {
        reveal_strlit("relation ");
        reveal_strlit("RetailH03Lineitem");
        reveal_strlit("(");
        reveal_strlit("c0: i32, c1: i32, c2: i32, c3: i32");
        reveal_strlit(");");
        reveal_strlit("relation RetailH03Lineitem(c0: i32, c1: i32, c2: i32, c3: i32);");
    }
    assert(relation_lines(m) =~= written_relations(QueryProgram::RetailH03));
}

/// The relation declarations of the RetailH05 program are its query text's.
#[verifier::rlimit(60)]
#[verifier::spinoff_prover]
proof fn lemma_relations_retail_h05()
    ensures
        relation_lines(QueryProgram::RetailH05.module_spec()) == written_relations(QueryProgram::RetailH05),
{
    let m = QueryProgram::RetailH05.module_spec();
    lemma_columns_1();
    lemma_columns_2();
    lemma_columns_4();
    assert(relation_line(m.inputs[0]) =~= "relation RetailH05Customer(c0: i32, c1: i32);"@) by {
        reveal_strlit("relation ");
        reveal_strlit("RetailH05Customer");
        reveal_strlit("(");
        reveal_strlit("c0: i32, c1: i32");
        reveal_strlit(");");
        reveal_strlit("relation RetailH05Customer(c0: i32, c1: i32);");
    }
    assert(relation_line(m.inputs[1]) =~= "relation RetailH05Orders(c0: i32, c1: i32);"@) by {
        reveal_strlit("relation ");
        reveal_strlit("RetailH05Orders");
        reveal_strlit("(");
        reveal_strlit("c0: i32, c1: i32");
        reveal_strlit(");");
        reveal_strlit("relation RetailH05Orders(c0: i32, c1: i32);");
    }
    assert(relation_line(m.inputs[2]) =~= "relation RetailH05Lineitem(c0: i32, c1: i32, c2: i32, c3: i32);"@) by {
        reveal_strlit("relation ");
        reveal_strlit("RetailH05Lineitem");
        reveal_strlit("(");
        reveal_strlit("c0: i32, c1: i32, c2: i32, c3: i32");
        reveal_strlit(");");
        reveal_strlit("relation RetailH05Lineitem(c0: i32, c1: i32, c2: i32, c3: i32);");
    }
    assert(relation_line(m.inputs[3]) =~= "relation RetailH05Supplier(c0: i32, c1: i32);"@) by {
        reveal_strlit("relation ");
        reveal_strlit("RetailH05Supplier");
        reveal_strlit("(");
        reveal_strlit("c0: i32, c1: i32");
        reveal_strlit(");");
        reveal_strlit("relation RetailH05Supplier(c0: i32, c1: i32);");
    }
    assert(relation_line(m.inputs[4]) =~= "relation RetailH05Nation(c0: i32, c1: i32);"@) by {
        reveal_strlit("relation ");
        reveal_strlit("RetailH05Nation");
        reveal_strlit("(");
        reveal_strlit("c0: i32, c1: i32");
        reveal_strlit(");");
        reveal_strlit("relation RetailH05Nation(c0: i32, c1: i32);");
    }
    assert(relation_line(m.inputs[5]) =~= "relation RetailH05Region(c0: i32);"@) by {
        reveal_strlit("relation ");
        reveal_strlit("RetailH05Region");
        reveal_strlit("(");
        reveal_strlit("c0: i32");
        reveal_strlit(");");
        reveal_strlit("relation RetailH05Region(c0: i32);");
    }
    assert(relation_lines(m) =~= written_relations(QueryProgram::RetailH05));
}

/// The relation declarations of the RetailH07 program are its query text's.
#[verifier::rlimit(60)]
#[verifier::spinoff_prover]
proof fn lemma_relations_retail_h07()
    ensures
        relation_lines(QueryProgram::RetailH07.module_spec()) == written_relations(QueryProgram::RetailH07),
{
    let m = QueryProgram::RetailH07.module_spec();
    lemma_columns_2();
    lemma_columns_4();
    assert(relation_line(m.inputs[0]) =~= "relation RetailH07Supplier(c0: i32, c1: i32);"@) by {
        reveal_strlit("relation ");
        reveal_strlit("RetailH07Supplier");
        reveal_strlit("(");
        reveal_strlit("c0: i32, c1: i32");
        reveal_strlit(");");
        reveal_strlit("relation RetailH07Supplier(c0: i32, c1: i32);");
    }
    assert(relation_line(m.inputs[1]) =~= "relation RetailH07Lineitem(c0: i32, c1: i32, c2: i32, c3: i32);"@) by {
        reveal_strlit("relation ");
        reveal_strlit("RetailH07Lineitem");
        reveal_strlit("(");
        reveal_strlit("c0: i32, c1: i32, c2: i32, c3: i32");
        reveal_strlit(");");
        reveal_strlit("relation RetailH07Lineitem(c0: i32, c1: i32, c2: i32, c3: i32);");
    }
    assert(relation_line(m.inputs[2]) =~= "relation RetailH07Orders(c0: i32, c1: i32);"@) by {
        reveal_strlit("relation ");
        reveal_strlit("RetailH07Orders");
        reveal_strlit("(");
        reveal_strlit("c0: i32, c1: i32");
        reveal_strlit(");");
        reveal_strlit("relation RetailH07Orders(c0: i32, c1: i32);");
    }
    assert(relation_line(m.inputs[3]) =~= "relation RetailH07Customer(c0: i32, c1: i32);"@) by {
        reveal_strlit("relation ");
        reveal_strlit("RetailH07Customer");
        reveal_strlit("(");
        reveal_strlit("c0: i32, c1: i32");
        reveal_strlit(");");
        reveal_strlit("relation RetailH07Customer(c0: i32, c1: i32);");
    }
    assert(relation_line(m.inputs[4]) =~= "relation RetailH07Nation(c0: i32, c1: i32);"@) by {
        reveal_strlit("relation ");
        reveal_strlit("RetailH07Nation");
        reveal_strlit("(");
        reveal_strlit("c0: i32, c1: i32");
        reveal_strlit(");");
        reveal_strlit("relation RetailH07Nation(c0: i32, c1: i32);");
    }
    assert(relation_lines(m) =~= written_relations(QueryProgram::RetailH07));
}

/// The relation declarations of the RetailH08 program are its query text's.
#[verifier::rlimit(60)]
#[verifier::spinoff_prover]
proof fn lemma_relations_retail_h08()
    ensures
        relation_lines(QueryProgram::RetailH08.module_spec()) == written_relations(QueryProgram::RetailH08),
{
    let m = QueryProgram::RetailH08.module_spec();
    lemma_columns_1();
    lemma_columns_2();
    lemma_columns_4();
    assert(relation_line(m.inputs[0]) =~= "relation RetailH08Lineitem(c0: i32, c1: i32, c2: i32, c3: i32);"@) by {
        reveal_strlit("relation ");
        reveal_strlit("RetailH08Lineitem");
        reveal_strlit("(");
        reveal_strlit("c0: i32, c1: i32, c2: i32, c3: i32");
        reveal_strlit(");");
        reveal_strlit("relation RetailH08Lineitem(c0: i32, c1: i32, c2: i32, c3: i32);");
    }
    assert(relation_line(m.inputs[1]) =~= "relation RetailH08Part(c0: i32);"@) by {
        reveal_strlit("relation ");
        reveal_strlit("RetailH08Part");
        reveal_strlit("(");
        reveal_strlit("c0: i32");
        reveal_strlit(");");
        reveal_strlit("relation RetailH08Part(c0: i32);");
    }
    assert(relation_line(m.inputs[2]) =~= "relation RetailH08Supplier(c0: i32, c1: i32);"@) by {
        reveal_strlit("relation ");
        reveal_strlit("RetailH08Supplier");
        reveal_strlit("(");
        reveal_strlit("c0: i32, c1: i32");
        reveal_strlit(");");
        reveal_strlit("relation RetailH08Supplier(c0: i32, c1: i32);");
    }
    assert(relation_line(m.inputs[3]) =~= "relation RetailH08Orders(c0: i32, c1: i32);"@) by {
        reveal_strlit("relation ");
        reveal_strlit("RetailH08Orders");
        reveal_strlit("(");
        reveal_strlit("c0: i32, c1: i32");
        reveal_strlit(");");
        reveal_strlit("relation RetailH08Orders(c0: i32, c1: i32);");
    }
    assert(relation_line(m.inputs[4]) =~= "relation RetailH08Customer(c0: i32, c1: i32);"@) by {
        reveal_strlit("relation ");
        reveal_strlit("RetailH08Customer");
        reveal_strlit("(");
        reveal_strlit("c0: i32, c1: i32");
        reveal_strlit(");");
        reveal_strlit("relation RetailH08Customer(c0: i32, c1: i32);");
    }
    assert(relation_line(m.inputs[5]) =~= "relation RetailH08Nation(c0: i32, c1: i32);"@) by {
        reveal_strlit("relation ");
        reveal_strlit("RetailH08Nation");
        reveal_strlit("(");
        reveal_strlit("c0: i32, c1: i32");
        reveal_strlit(");");
        reveal_strlit("relation RetailH08Nation(c0: i32, c1: i32);");
    }
    assert(relation_line(m.inputs[6]) =~= "relation RetailH08Region(c0: i32);"@) by {
        reveal_strlit("relation ");
        reveal_strlit("RetailH08Region");
        reveal_strlit("(");
        reveal_strlit("c0: i32");
        reveal_strlit(");");
        reveal_strlit("relation RetailH08Region(c0: i32);");
    }
    assert(relation_lines(m) =~= written_relations(QueryProgram::RetailH08));
}

/// The relation declarations of the RetailH09 program are its query text's.
#[verifier::rlimit(60)]
#[verifier::spinoff_prover]
proof fn lemma_relations_retail_h09()
    ensures
        relation_lines(QueryProgram::RetailH09.module_spec()) == written_relations(QueryProgram::RetailH09),
{
    let m = QueryProgram::RetailH09.module_spec();
    lemma_columns_1();
    lemma_columns_2();
    lemma_columns_4();
    assert(relation_line(m.inputs[0]) =~= "relation RetailH09Lineitem(c0: i32, c1: i32, c2: i32, c3: i32);"@) by {
        reveal_strlit("relation ");
        reveal_strlit("RetailH09Lineitem");
        reveal_strlit("(");
        reveal_strlit("c0: i32, c1: i32, c2: i32, c3: i32");
        reveal_strlit(");");
        reveal_strlit("relation RetailH09Lineitem(c0: i32, c1: i32, c2: i32, c3: i32);");
    }
    assert(relation_line(m.inputs[1]) =~= "relation RetailH09PartSupp(c0: i32, c1: i32);"@) by {
        reveal_strlit("relation ");
        reveal_strlit("RetailH09PartSupp");
        reveal_strlit("(");
        reveal_strlit("c0: i32, c1: i32");
        reveal_strlit(");");
        reveal_strlit("relation RetailH09PartSupp(c0: i32, c1: i32);");
    }
    assert(relation_line(m.inputs[2]) =~= "relation RetailH09Part(c0: i32);"@) by {
        reveal_strlit("relation ");
        reveal_strlit("RetailH09Part");
        reveal_strlit("(");
        reveal_strlit("c0: i32");
        reveal_strlit(");");
        reveal_strlit("relation RetailH09Part(c0: i32);");
    }
    assert(relation_line(m.inputs[3]) =~= "relation RetailH09Supplier(c0: i32, c1: i32);"@) by {
        reveal_strlit("relation ");
        reveal_strlit("RetailH09Supplier");
        reveal_strlit("(");
        reveal_strlit("c0: i32, c1: i32");
        reveal_strlit(");");
        reveal_strlit("relation RetailH09Supplier(c0: i32, c1: i32);");
    }
    assert(relation_line(m.inputs[4]) =~= "relation RetailH09Orders(c0: i32, c1: i32);"@) by {
        reveal_strlit("relation ");
        reveal_strlit("RetailH09Orders");
        reveal_strlit("(");
        reveal_strlit("c0: i32, c1: i32");
        reveal_strlit(");");
        reveal_strlit("relation RetailH09Orders(c0: i32, c1: i32);");
    }
    assert(relation_line(m.inputs[5]) =~= "relation RetailH09Nation(c0: i32, c1: i32);"@) by {
        reveal_strlit("relation ");
        reveal_strlit("RetailH09Nation");
        reveal_strlit("(");
        reveal_strlit("c0: i32, c1: i32");
        reveal_strlit(");");
        reveal_strlit("relation RetailH09Nation(c0: i32, c1: i32);");
    }
    assert(relation_lines(m) =~= written_relations(QueryProgram::RetailH09));
}

/// The relation declarations of the RetailH21Positive program are its query text's.
#[verifier::rlimit(60)]
#[verifier::spinoff_prover]
proof fn lemma_relations_retail_h21_positive()
    ensures
        relation_lines(QueryProgram::RetailH21Positive.module_spec()) == written_relations(QueryProgram::RetailH21Positive),
{
    let m = QueryProgram::RetailH21Positive.module_spec();
    lemma_columns_2();
    lemma_columns_4();
    assert(relation_line(m.inputs[0]) =~= "relation RetailH21PositiveSupplier(c0: i32, c1: i32);"@) by {
        reveal_strlit("relation ");
        reveal_strlit("RetailH21PositiveSupplier");
        reveal_strlit("(");
        reveal_strlit("c0: i32, c1: i32");
        reveal_strlit(");");
        reveal_strlit("relation RetailH21PositiveSupplier(c0: i32, c1: i32);");
    }
    assert(relation_line(m.inputs[1]) =~= "relation RetailH21PositiveLineitem(c0: i32, c1: i32, c2: i32, c3: i32);"@) by {
        reveal_strlit("relation ");
        reveal_strlit("RetailH21PositiveLineitem");
        reveal_strlit("(");
        reveal_strlit("c0: i32, c1: i32, c2: i32, c3: i32");
        reveal_strlit(");");
        reveal_strlit("relation RetailH21PositiveLineitem(c0: i32, c1: i32, c2: i32, c3: i32);");
    }
    assert(relation_line(m.inputs[2]) =~= "relation RetailH21PositiveOrders(c0: i32, c1: i32);"@) by {
        reveal_strlit("relation ");
        reveal_strlit("RetailH21PositiveOrders");
        reveal_strlit("(");
        reveal_strlit("c0: i32, c1: i32");
        reveal_strlit(");");
        reveal_strlit("relation RetailH21PositiveOrders(c0: i32, c1: i32);");
    }
    assert(relation_line(m.inputs[3]) =~= "relation RetailH21PositiveNation(c0: i32, c1: i32);"@) by {
        reveal_strlit("relation ");
        reveal_strlit("RetailH21PositiveNation");
        reveal_strlit("(");
        reveal_strlit("c0: i32, c1: i32");
        reveal_strlit(");");
        reveal_strlit("relation RetailH21PositiveNation(c0: i32, c1: i32);");
    }
    assert(relation_lines(m) =~= written_relations(QueryProgram::RetailH21Positive));
}

/// The relation declarations of the RetailD19 program are its query text's.
#[verifier::rlimit(60)]
#[verifier::spinoff_prover]
proof fn lemma_relations_retail_d19()
    ensures
        relation_lines(QueryProgram::RetailD19.module_spec()) == written_relations(QueryProgram::RetailD19),
{
    let m = QueryProgram::RetailD19.module_spec();
    lemma_columns_1();
    lemma_columns_2();
    lemma_columns_5();
    assert(relation_line(m.inputs[0]) =~= "relation RetailD19StoreSales(c0: i32, c1: i32, c2: i32, c3: i32, c4: i32);"@) by {
        reveal_strlit("relation ");
        reveal_strlit("RetailD19StoreSales");
        reveal_strlit("(");
        reveal_strlit("c0: i32, c1: i32, c2: i32, c3: i32, c4: i32");
        reveal_strlit(");");
        reveal_strlit("relation RetailD19StoreSales(c0: i32, c1: i32, c2: i32, c3: i32, c4: i32);");
    }
    assert(relation_line(m.inputs[1]) =~= "relation RetailD19DateDim(c0: i32);"@) by {
        reveal_strlit("relation ");
        reveal_strlit("RetailD19DateDim");
        reveal_strlit("(");
        reveal_strlit("c0: i32");
        reveal_strlit(");");
        reveal_strlit("relation RetailD19DateDim(c0: i32);");
    }
    assert(relation_line(m.inputs[2]) =~= "relation RetailD19Item(c0: i32);"@) by {
        reveal_strlit("relation ");
        reveal_strlit("RetailD19Item");
        reveal_strlit("(");
        reveal_strlit("c0: i32");
        reveal_strlit(");");
        reveal_strlit("relation RetailD19Item(c0: i32);");
    }
    assert(relation_line(m.inputs[3]) =~= "relation RetailD19Customer(c0: i32, c1: i32);"@) by {
        reveal_strlit("relation ");
        reveal_strlit("RetailD19Customer");
        reveal_strlit("(");
        reveal_strlit("c0: i32, c1: i32");
        reveal_strlit(");");
        reveal_strlit("relation RetailD19Customer(c0: i32, c1: i32);");
    }
    assert(relation_line(m.inputs[4]) =~= "relation RetailD19CustomerAddress(c0: i32);"@) by {
        reveal_strlit("relation ");
        reveal_strlit("RetailD19CustomerAddress");
        reveal_strlit("(");
        reveal_strlit("c0: i32");
        reveal_strlit(");");
        reveal_strlit("relation RetailD19CustomerAddress(c0: i32);");
    }
    assert(relation_line(m.inputs[5]) =~= "relation RetailD19Store(c0: i32);"@) by {
        reveal_strlit("relation ");
        reveal_strlit("RetailD19Store");
        reveal_strlit("(");
        reveal_strlit("c0: i32");
        reveal_strlit(");");
        reveal_strlit("relation RetailD19Store(c0: i32);");
    }
    assert(relation_lines(m) =~= written_relations(QueryProgram::RetailD19));
}

/// The relation declarations of the RetailD27 program are its query text's.
#[verifier::rlimit(60)]
#[verifier::spinoff_prover]
proof fn lemma_relations_retail_d27()
    ensures
        relation_lines(QueryProgram::RetailD27.module_spec()) == written_relations(QueryProgram::RetailD27),
{
    let m = QueryProgram::RetailD27.module_spec();
    lemma_columns_1();
    lemma_columns_5();
    assert(relation_line(m.inputs[0]) =~= "relation RetailD27StoreSales(c0: i32, c1: i32, c2: i32, c3: i32, c4: i32);"@) by {
        reveal_strlit("relation ");
        reveal_strlit("RetailD27StoreSales");
        reveal_strlit("(");
        reveal_strlit("c0: i32, c1: i32, c2: i32, c3: i32, c4: i32");
        reveal_strlit(");");
        reveal_strlit("relation RetailD27StoreSales(c0: i32, c1: i32, c2: i32, c3: i32, c4: i32);");
    }
    assert(relation_line(m.inputs[1]) =~= "relation RetailD27DateDim(c0: i32);"@) by {
        reveal_strlit("relation ");
        reveal_strlit("RetailD27DateDim");
        reveal_strlit("(");
        reveal_strlit("c0: i32");
        reveal_strlit(");");
        reveal_strlit("relation RetailD27DateDim(c0: i32);");
    }
    assert(relation_line(m.inputs[2]) =~= "relation RetailD27Item(c0: i32);"@) by {
        reveal_strlit("relation ");
        reveal_strlit("RetailD27Item");
        reveal_strlit("(");
        reveal_strlit("c0: i32");
        reveal_strlit(");");
        reveal_strlit("relation RetailD27Item(c0: i32);");
    }
    assert(relation_line(m.inputs[3]) =~= "relation RetailD27Store(c0: i32);"@) by {
        reveal_strlit("relation ");
        reveal_strlit("RetailD27Store");
        reveal_strlit("(");
        reveal_strlit("c0: i32");
        reveal_strlit(");");
        reveal_strlit("relation RetailD27Store(c0: i32);");
    }
    assert(relation_line(m.inputs[4]) =~= "relation RetailD27CustomerDemo(c0: i32);"@) by {
        reveal_strlit("relation ");
        reveal_strlit("RetailD27CustomerDemo");
        reveal_strlit("(");
        reveal_strlit("c0: i32");
        reveal_strlit(");");
        reveal_strlit("relation RetailD27CustomerDemo(c0: i32);");
    }
    assert(relation_lines(m) =~= written_relations(QueryProgram::RetailD27));
}

/// The relation declarations of the RetailD72Inner program are its query text's.
#[verifier::rlimit(60)]
#[verifier::spinoff_prover]
proof fn lemma_relations_retail_d72_inner()
    ensures
        relation_lines(QueryProgram::RetailD72Inner.module_spec()) == written_relations(QueryProgram::RetailD72Inner),
{
    let m = QueryProgram::RetailD72Inner.module_spec();
    lemma_columns_1();
    lemma_columns_2();
    lemma_columns_3();
    lemma_columns_6();
    assert(relation_line(m.inputs[0]) =~= "relation RetailD72InnerCatalogSales(c0: i32, c1: i32, c2: i32, c3: i32, c4: i32, c5: i32);"@) by {
        reveal_strlit("relation ");
        reveal_strlit("RetailD72InnerCatalogSales");
        reveal_strlit("(");
        reveal_strlit("c0: i32, c1: i32, c2: i32, c3: i32, c4: i32, c5: i32");
        reveal_strlit(");");
        reveal_strlit("relation RetailD72InnerCatalogSales(c0: i32, c1: i32, c2: i32, c3: i32, c4: i32, c5: i32);");
    }
    assert(relation_line(m.inputs[1]) =~= "relation RetailD72InnerDateDim(c0: i32, c1: i32);"@) by {
        reveal_strlit("relation ");
        reveal_strlit("RetailD72InnerDateDim");
        reveal_strlit("(");
        reveal_strlit("c0: i32, c1: i32");
        reveal_strlit(");");
        reveal_strlit("relation RetailD72InnerDateDim(c0: i32, c1: i32);");
    }
    assert(relation_line(m.inputs[2]) =~= "relation RetailD72InnerInventory(c0: i32, c1: i32, c2: i32);"@) by {
        reveal_strlit("relation ");
        reveal_strlit("RetailD72InnerInventory");
        reveal_strlit("(");
        reveal_strlit("c0: i32, c1: i32, c2: i32");
        reveal_strlit(");");
        reveal_strlit("relation RetailD72InnerInventory(c0: i32, c1: i32, c2: i32);");
    }
    assert(relation_line(m.inputs[3]) =~= "relation RetailD72InnerWarehouse(c0: i32);"@) by {
        reveal_strlit("relation ");
        reveal_strlit("RetailD72InnerWarehouse");
        reveal_strlit("(");
        reveal_strlit("c0: i32");
        reveal_strlit(");");
        reveal_strlit("relation RetailD72InnerWarehouse(c0: i32);");
    }
    assert(relation_line(m.inputs[4]) =~= "relation RetailD72InnerItem(c0: i32);"@) by {
        reveal_strlit("relation ");
        reveal_strlit("RetailD72InnerItem");
        reveal_strlit("(");
        reveal_strlit("c0: i32");
        reveal_strlit(");");
        reveal_strlit("relation RetailD72InnerItem(c0: i32);");
    }
    assert(relation_line(m.inputs[5]) =~= "relation RetailD72InnerCustomerDemo(c0: i32);"@) by {
        reveal_strlit("relation ");
        reveal_strlit("RetailD72InnerCustomerDemo");
        reveal_strlit("(");
        reveal_strlit("c0: i32");
        reveal_strlit(");");
        reveal_strlit("relation RetailD72InnerCustomerDemo(c0: i32);");
    }
    assert(relation_line(m.inputs[6]) =~= "relation RetailD72InnerHouseholdDemo(c0: i32);"@) by {
        reveal_strlit("relation ");
        reveal_strlit("RetailD72InnerHouseholdDemo");
        reveal_strlit("(");
        reveal_strlit("c0: i32");
        reveal_strlit(");");
        reveal_strlit("relation RetailD72InnerHouseholdDemo(c0: i32);");
    }
    assert(relation_lines(m) =~= written_relations(QueryProgram::RetailD72Inner));
}

/// The relation declarations of the RetailD85 program are its query text's.
#[verifier::rlimit(60)]
#[verifier::spinoff_prover]
proof fn lemma_relations_retail_d85()
    ensures
        relation_lines(QueryProgram::RetailD85.module_spec()) == written_relations(QueryProgram::RetailD85),
{
    let m = QueryProgram::RetailD85.module_spec();
    lemma_columns_1();
    lemma_columns_4();
    lemma_columns_6();
    assert(relation_line(m.inputs[0]) =~= "relation RetailD85WebSales(c0: i32, c1: i32, c2: i32, c3: i32);"@) by {
        reveal_strlit("relation ");
        reveal_strlit("RetailD85WebSales");
        reveal_strlit("(");
        reveal_strlit("c0: i32, c1: i32, c2: i32, c3: i32");
        reveal_strlit(");");
        reveal_strlit("relation RetailD85WebSales(c0: i32, c1: i32, c2: i32, c3: i32);");
    }
    assert(relation_line(m.inputs[1]) =~= "relation RetailD85WebReturns(c0: i32, c1: i32, c2: i32, c3: i32, c4: i32, c5: i32);"@) by {
        reveal_strlit("relation ");
        reveal_strlit("RetailD85WebReturns");
        reveal_strlit("(");
        reveal_strlit("c0: i32, c1: i32, c2: i32, c3: i32, c4: i32, c5: i32");
        reveal_strlit(");");
        reveal_strlit("relation RetailD85WebReturns(c0: i32, c1: i32, c2: i32, c3: i32, c4: i32, c5: i32);");
    }
    assert(relation_line(m.inputs[2]) =~= "relation RetailD85WebPage(c0: i32);"@) by {
        reveal_strlit("relation ");
        reveal_strlit("RetailD85WebPage");
        reveal_strlit("(");
        reveal_strlit("c0: i32");
        reveal_strlit(");");
        reveal_strlit("relation RetailD85WebPage(c0: i32);");
    }
    assert(relation_line(m.inputs[3]) =~= "relation RetailD85CustomerDemo(c0: i32);"@) by {
        reveal_strlit("relation ");
        reveal_strlit("RetailD85CustomerDemo");
        reveal_strlit("(");
        reveal_strlit("c0: i32");
        reveal_strlit(");");
        reveal_strlit("relation RetailD85CustomerDemo(c0: i32);");
    }
    assert(relation_line(m.inputs[4]) =~= "relation RetailD85CustomerAddress(c0: i32);"@) by {
        reveal_strlit("relation ");
        reveal_strlit("RetailD85CustomerAddress");
        reveal_strlit("(");
        reveal_strlit("c0: i32");
        reveal_strlit(");");
        reveal_strlit("relation RetailD85CustomerAddress(c0: i32);");
    }
    assert(relation_line(m.inputs[5]) =~= "relation RetailD85DateDim(c0: i32);"@) by {
        reveal_strlit("relation ");
        reveal_strlit("RetailD85DateDim");
        reveal_strlit("(");
        reveal_strlit("c0: i32");
        reveal_strlit(");");
        reveal_strlit("relation RetailD85DateDim(c0: i32);");
    }
    assert(relation_line(m.inputs[6]) =~= "relation RetailD85Reason(c0: i32);"@) by {
        reveal_strlit("relation ");
        reveal_strlit("RetailD85Reason");
        reveal_strlit("(");
        reveal_strlit("c0: i32");
        reveal_strlit(");");
        reveal_strlit("relation RetailD85Reason(c0: i32);");
    }
    assert(relation_lines(m) =~= written_relations(QueryProgram::RetailD85));
}

/// Every catalog program is the query its query text states: the
/// same relation declarations in the same order, and the same rule, atom
/// for atom and variable for variable.
pub proof fn catalog_programs_match_their_query_text(program: QueryProgram)
    ensures
        rule_text(program.module_spec()) == written_rule(program),
        relation_lines(program.module_spec()) == written_relations(program),
{
    match program {
        QueryProgram::Intersection => {
            lemma_rule_intersection();
            lemma_relations_intersection();
        },
        QueryProgram::CartesianProduct => {
            lemma_rule_cartesian_product();
            lemma_relations_cartesian_product();
        },
        QueryProgram::OrientedChain => {
            lemma_rule_oriented_chain();
            lemma_relations_oriented_chain();
        },
        QueryProgram::Claw => {
            lemma_rule_claw();
            lemma_relations_claw();
        },
        QueryProgram::FactStar => {
            lemma_rule_fact_star();
            lemma_relations_fact_star();
        },
        QueryProgram::Triangle => {
            lemma_rule_triangle();
            lemma_relations_triangle();
        },
        QueryProgram::Cycle4 => {
            lemma_rule_cycle_4();
            lemma_relations_cycle_4();
        },
        QueryProgram::Spade => {
            lemma_rule_spade();
            lemma_relations_spade();
        },
        QueryProgram::Barbell => {
            lemma_rule_barbell();
            lemma_relations_barbell();
        },
        QueryProgram::LoomisWhitney4 => {
            lemma_rule_loomis_whitney_4();
            lemma_relations_loomis_whitney_4();
        },
        QueryProgram::RetailH03 => {
            lemma_rule_retail_h03();
            lemma_relations_retail_h03();
        },
        QueryProgram::RetailH05 => {
            lemma_rule_retail_h05();
            lemma_relations_retail_h05();
        },
        QueryProgram::RetailH07 => {
            lemma_rule_retail_h07();
            lemma_relations_retail_h07();
        },
        QueryProgram::RetailH08 => {
            lemma_rule_retail_h08();
            lemma_relations_retail_h08();
        },
        QueryProgram::RetailH09 => {
            lemma_rule_retail_h09();
            lemma_relations_retail_h09();
        },
        QueryProgram::RetailH21Positive => {
            lemma_rule_retail_h21_positive();
            lemma_relations_retail_h21_positive();
        },
        QueryProgram::RetailD19 => {
            lemma_rule_retail_d19();
            lemma_relations_retail_d19();
        },
        QueryProgram::RetailD27 => {
            lemma_rule_retail_d27();
            lemma_relations_retail_d27();
        },
        QueryProgram::RetailD72Inner => {
            lemma_rule_retail_d72_inner();
            lemma_relations_retail_d72_inner();
        },
        QueryProgram::RetailD85 => {
            lemma_rule_retail_d85();
            lemma_relations_retail_d85();
        },
    }
}

} // verus!
