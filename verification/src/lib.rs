//! Query catalogs, deterministic workload data, and SQL oracle text for
//! MiniLinq correctness checks.

pub mod analysis;
pub mod catalog;
pub mod dataset;
pub mod generate;
pub mod model;
pub mod rows;
pub mod split;
pub mod sql;
pub mod text;
pub mod manifest;
pub mod tasks;
pub mod explain;
pub mod reproduce;
pub mod query_text;

use vstd::prelude::*;
use vstd::string::StringSliceAdditionalSpecFns;

verus! {

/// The stable version written into generated workload manifests.
pub const GENERATOR_VERSION: u32 = 2;

/// One of the two teaching corpora.
#[derive(Clone, Copy, Debug, PartialEq, Eq, Structural)]
pub enum Suite {
    Classic,
    Retail,
}

impl Suite {
    /// The command-line name.
    pub open spec fn name_spec(self) -> Seq<char> {
        match self {
            Suite::Classic => "classic"@,
            Suite::Retail => "retail"@,
        }
    }

    /// The command-line name.
    pub fn as_str(self) -> (r: &'static str)
        ensures
            r@ == self.name_spec(),
    {
        match self {
            Suite::Classic => "classic",
            Suite::Retail => "retail",
        }
    }
}

/// Reproducible input sizes. `Large` is an opt-in benchmark scale.
#[derive(Clone, Copy, Debug, PartialEq, Eq, Structural)]
pub enum Scale {
    Tiny,
    Medium,
    Large,
}

impl Scale {
    /// The command-line name.
    pub open spec fn name_spec(self) -> Seq<char> {
        match self {
            Scale::Tiny => "tiny"@,
            Scale::Medium => "medium"@,
            Scale::Large => "large"@,
        }
    }

    /// The command-line name.
    pub fn as_str(self) -> (r: &'static str)
        ensures
            r@ == self.name_spec(),
    {
        match self {
            Scale::Tiny => "tiny",
            Scale::Medium => "medium",
            Scale::Large => "large",
        }
    }
}

/// The semantic shape exercised by one generated input dataset.
#[derive(Clone, Copy, Debug, PartialEq, Eq, Structural)]
pub enum Scenario {
    /// A nonempty result plus rows that exercise physical-access edge cases.
    Coverage,
    /// One required input relation is empty.
    EmptyInput,
    /// Every input is nonempty, but the query result is empty.
    NoMatch,
}

impl Scenario {
    /// The command-line name.
    pub open spec fn name_spec(self) -> Seq<char> {
        match self {
            Scenario::Coverage => "coverage"@,
            Scenario::EmptyInput => "empty-input"@,
            Scenario::NoMatch => "no-match"@,
        }
    }

    /// The command-line name.
    pub fn as_str(self) -> (r: &'static str)
        ensures
            r@ == self.name_spec(),
    {
        match self {
            Scenario::Coverage => "coverage",
            Scenario::EmptyInput => "empty-input",
            Scenario::NoMatch => "no-match",
        }
    }

    /// Every scenario, in its stable order.
    pub fn all() -> (r: [Scenario; 3])
        ensures
            r@ == seq![Scenario::Coverage, Scenario::EmptyInput, Scenario::NoMatch],
    {
        [Scenario::Coverage, Scenario::EmptyInput, Scenario::NoMatch]
    }
}

/// Everything needed to reproduce one generated dataset.
#[derive(Clone, Copy, Debug, PartialEq, Eq, Structural)]
pub struct GenerationConfig {
    pub scenario: Scenario,
    pub scale: Scale,
    pub seed: u64,
}

/// The query program of one catalog case.
#[derive(Clone, Copy, Debug, PartialEq, Eq, Structural)]
pub enum QueryProgram {
    Intersection,
    CartesianProduct,
    OrientedChain,
    Claw,
    FactStar,
    Triangle,
    Cycle4,
    Spade,
    Barbell,
    LoomisWhitney4,
    RetailH03,
    RetailH05,
    RetailH07,
    RetailH08,
    RetailH09,
    RetailH21Positive,
    RetailD19,
    RetailD27,
    RetailD72Inner,
    RetailD85,
}

/// One complete positive-CQ workload and its teaching metadata.
#[derive(Clone, Copy, Debug)]
pub struct QueryCase {
    pub suite: Suite,
    pub name: &'static str,
    /// Source path of the authored query program.
    pub rust_path: &'static str,
    pub purpose: &'static str,
    /// Honest scope note for derived rather than standards-compliant cases.
    pub scope_note: &'static str,
    pub program: QueryProgram,
}

impl QueryCase {
    /// The typed CQ of this case.
    pub fn module(self) -> (r: crate::model::CqModule)
        ensures
            crate::catalog::module_view(r) == self.program.module_spec(),
    {
        self.program.module()
    }
}

/// Every catalog name, classic cases first.
pub open spec fn all_names() -> Seq<Seq<char>> {
    crate::catalog::classic_names() + crate::catalog::retail_names()
}

/// Return one case by its stable command-line name.
pub fn case(name: &str) -> (r: Option<QueryCase>)
    ensures
        r is Some <==> all_names().contains(name@),
        r matches Some(c) ==> c.name@ == name@ && exists|k: int|
            0 <= k < all_names().len() && all_names()[k] == name@
                && c.program == (crate::catalog::classic_programs() + crate::catalog::retail_programs())[k]
                && c.purpose@ == (crate::catalog::classic_purposes() + crate::catalog::retail_purposes())[k]
                && c.suite == (if k < 10 { Suite::Classic } else { Suite::Retail }),
        r matches Some(c) ==> exists|k: int| all_names()[k] == name@ && #[trigger] crate::catalog::catalog_entry(c, k),
{
    let cases = crate::catalog::all();
    for i in 0..cases.len()
        invariant
            crate::catalog::case_names(cases@) == all_names(),
            crate::catalog::case_programs(cases@) == crate::catalog::classic_programs() + crate::catalog::retail_programs(),
            crate::catalog::case_purposes(cases@) == crate::catalog::classic_purposes() + crate::catalog::retail_purposes(),
            forall|k: int| 0 <= k < cases@.len() ==> (#[trigger] cases@[k]).suite == (if k < 10 { Suite::Classic } else { Suite::Retail }),
            forall|k: int| 0 <= k < i ==> cases@[k].name@ != name@,
            forall|k: int| 0 <= k < cases@.len() ==> crate::catalog::catalog_entry(#[trigger] cases@[k], k),
    {
        if crate::text::str_equal(cases[i].name, name) {
            assert(crate::catalog::case_names(cases@)[i as int] == name@);
            assert(crate::catalog::case_programs(cases@)[i as int] == cases@[i as int].program);
            assert(crate::catalog::case_purposes(cases@)[i as int] == cases@[i as int].purpose@);
            assert(crate::catalog::catalog_entry(cases@[i as int], i as int));
            return Some(cases[i]);
        }
    }
    proof {
        if all_names().contains(name@) {
            let k = choose|k: int| 0 <= k < all_names().len() && all_names()[k] == name@;
            assert(crate::catalog::case_names(cases@)[k] == cases@[k].name@);
        }
    }
    None
}

/// The FNV-1a hash of the bytes.
pub open spec fn fnv1a(bytes: Seq<u8>) -> u64
    decreases bytes.len(),
{
    if bytes.len() == 0 {
        0xcbf2_9ce4_8422_2325
    } else {
        (fnv1a(bytes.drop_last()) ^ (bytes.last() as u64)).wrapping_mul(0x0000_0100_0000_01b3)
    }
}

/// Every byte of a name, `_` included, takes exactly one FNV-1a step: the state
/// starts at the 64-bit offset basis, and appending a byte `b` turns the state
/// `h` into `(h ^ b) * 0x100000001b3` modulo 2^64. `seed_for` returns this fold
/// over all bytes of the case name.
pub proof fn fnv1a_folds_every_byte(bytes: Seq<u8>, b: u8)
    ensures
        fnv1a(Seq::<u8>::empty()) == 0xcbf2_9ce4_8422_2325u64,
        fnv1a(bytes.push(b)) as int == ((fnv1a(bytes) ^ (b as u64)) as int * 0x0000_0100_0000_01b3int)
            % 0x1_0000_0000_0000_0000int,
{
    assert(bytes.push(b).drop_last() =~= bytes);
    assert(bytes.push(b).last() == b);
}

/// Stable catalog seed. Renaming a case deliberately changes its generated data.
pub fn seed_for(case: &QueryCase) -> (r: u64)
    ensures
        r == fnv1a(case.name.spec_bytes()),
{
    // FNV-1a is fixed here rather than delegated to a randomized standard
    // hasher so checked-in datasets remain reproducible across Rust releases.
    let bytes = case.name.as_bytes();
    let mut hash: u64 = 0xcbf2_9ce4_8422_2325;
    for i in 0..bytes.len()
        invariant
            bytes@ == case.name.spec_bytes(),
            hash == fnv1a(bytes@.take(i as int)),
    {
        assert(bytes@.take(i + 1).drop_last() =~= bytes@.take(i as int));
        hash = (hash ^ (bytes[i] as u64)).wrapping_mul(0x0000_0100_0000_01b3);
    }
    assert(bytes@.take(bytes@.len() as int) == bytes@);
    hash
}

} // verus!
