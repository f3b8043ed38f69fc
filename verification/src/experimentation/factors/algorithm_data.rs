//! The caching factor: whether the scratch data of an algorithm is kept
//! from one query to the next.
use crate::utils::cli::{choices, print_table_get_choices};
use crate::experimentation::factors::factor::Factor;
use vstd::prelude::*;
use vstd::string::StringExecFns;

verus! {

#[derive(Clone, Copy, Debug, PartialEq, Eq, Structural)]
pub enum FactorAlgorithmData {
    /// One instance of the algorithm answers all queries of a treatment.
    Cached,
    /// Every query gets an instance of its own.
    Pure,
}

impl FactorAlgorithmData {
    /// The levels in their order.
    pub open spec fn all_levels() -> Seq<FactorAlgorithmData> {
        seq![FactorAlgorithmData::Cached, FactorAlgorithmData::Pure]
    }

    pub fn levels() -> (levels: Vec<Self>)
        ensures
            levels@ == Self::all_levels(),
    {
        let mut levels: Vec<Self> = Vec::new();
        levels.push(Self::Cached);
        levels.push(Self::Pure);
        assert(levels@ =~= Self::all_levels());
        levels
    }

    /// The levels that a line of answers chooses; the first level where
    /// it chooses none.
    pub fn query_levels_from_cli(line: &Vec<u8>) -> (levels: Vec<Self>)
        ensures
            levels@ == choices(Self::all_levels(), 0, line@),
    {
        print_table_get_choices(&Self::levels(), 0, line)
    }
}

impl Factor for FactorAlgorithmData {
    open spec fn factor_text() -> Seq<char> {
        "Caching"@
    }

    open spec fn level_text(&self) -> Seq<char> {
        match self {
            FactorAlgorithmData::Cached => "Cached"@,
            FactorAlgorithmData::Pure => "Pure"@,
        }
    }

    open spec fn cell_text(&self) -> Seq<char> {
        self.level_text()
    }

    fn query_header_index() -> (index: usize)
        ensures
            index == 5,
    {
        5
    }

    fn name_factor() -> (name: &'static str) {
        "Caching"
    }

    fn definition_factor() -> (definition: &'static str)
        ensures
            definition@ == "Usage pattern of algorithm's internal temporary data."@,
    {
        "Usage pattern of algorithm's internal temporary data."
    }

    fn definition_level(&self) -> (definition: String) {
        self.name_level()
    }

    fn name_level(&self) -> (name: String) {
        String::from_str(
            match self {
                Self::Cached => "Cached",
                Self::Pure => "Pure",
            },
        )
    }

    fn to_cell_string(&self) -> (cell: String) {
        self.name_level()
    }
}

impl Default for FactorAlgorithmData {
    fn default() -> (level: Self)
        ensures
            level == FactorAlgorithmData::Cached,
    {
        Self::Cached
    }
}

} // verus!
