//! The representation factor: how the graph lies in memory.
use crate::utils::cli::{choices, print_table_get_choices};
use crate::experimentation::factors::factor::Factor;
use vstd::prelude::*;
use vstd::string::StringExecFns;

verus! {

#[derive(Clone, Copy, Debug, PartialEq, Eq, Structural)]
pub enum FactorGraphRepresentation {
    AdjListJaggedVec,
    AdjListFlatVec,
    AdjListPetgraph,
}

impl FactorGraphRepresentation {
    /// The levels in their order.
    pub open spec fn all_levels() -> Seq<FactorGraphRepresentation> {
        seq![
            FactorGraphRepresentation::AdjListJaggedVec,
            FactorGraphRepresentation::AdjListFlatVec,
            FactorGraphRepresentation::AdjListPetgraph,
        ]
    }

    pub fn levels() -> (levels: Vec<Self>)
        ensures
            levels@ == Self::all_levels(),
    {
        let mut levels: Vec<Self> = Vec::new();
        levels.push(Self::AdjListJaggedVec);
        levels.push(Self::AdjListFlatVec);
        levels.push(Self::AdjListPetgraph);
        assert(levels@ =~= Self::all_levels());
        levels
    }

    /// The levels that a line of answers chooses; the first level where
    /// it chooses none.
    pub fn query_levels_from_cli(line: &Vec<u8>) -> (levels: Vec<Self>)
        ensures
            levels@ == choices(Self::all_levels(), 0, line@),
    {
        print_table_get_choices(&Self::levels(), 0, line)
    }
}

impl Factor for FactorGraphRepresentation {
    open spec fn factor_text() -> Seq<char> {
        "Graph Representation"@
    }

    open spec fn level_text(&self) -> Seq<char> {
        match self {
            FactorGraphRepresentation::AdjListJaggedVec => "AdjListJaggedVec"@,
            FactorGraphRepresentation::AdjListFlatVec => "AdjListFlatVec"@,
            FactorGraphRepresentation::AdjListPetgraph => "AdjListPetgraph"@,
        }
    }

    open spec fn cell_text(&self) -> Seq<char> {
        self.level_text()
    }

    fn query_header_index() -> (index: usize)
        ensures
            index == 3,
    {
        3
    }

    fn name_factor() -> (name: &'static str) {
        "Graph Representation"
    }

    fn definition_factor() -> (definition: &'static str)
        ensures
            definition@ == "Representation of the graph in memory."@,
    {
        "Representation of the graph in memory."
    }

    fn definition_level(&self) -> (definition: String) {
        self.name_level()
    }

    fn name_level(&self) -> (name: String) {
        String::from_str(
            match self {
                Self::AdjListJaggedVec => "AdjListJaggedVec",
                Self::AdjListFlatVec => "AdjListFlatVec",
                Self::AdjListPetgraph => "AdjListPetgraph",
            },
        )
    }

    fn to_cell_string(&self) -> (cell: String) {
        self.name_level()
    }
}

impl Default for FactorGraphRepresentation {
    fn default() -> (level: Self)
        ensures
            level == FactorGraphRepresentation::AdjListJaggedVec,
    {
        Self::AdjListJaggedVec
    }
}

} // verus!
