//! The algorithm factor.
use crate::experimentation::factors::algorithm::dary::Dary;
use crate::experimentation::factors::algorithm::dijkstra::Dijkstra;
use crate::experimentation::factors::algorithm::priority_queue::PriorityQueue;
use crate::experimentation::factors::factor::Factor;
use vstd::prelude::*;
use vstd::string::StringExecFns;

verus! {

#[derive(Clone, Copy, Debug, PartialEq, Eq, Structural)]
pub enum FactorAlgorithm {
    Dijkstra(Dijkstra),
}

impl FactorAlgorithm {
    /// The levels that the chosen realizations of Dijkstra's algorithm
    /// give. Dijkstra's algorithm is the one algorithm, so it is not asked
    /// for.
    pub fn query_levels_from_cli(dijkstras: &Vec<Dijkstra>) -> (levels: Vec<Self>)
        ensures
            levels@ == Seq::new(dijkstras@.len(), |k: int| FactorAlgorithm::Dijkstra(dijkstras@[k])),
    {
        let mut levels: Vec<Self> = Vec::new();
        let mut i: usize = 0;
        while i < dijkstras.len()
            invariant
                i <= dijkstras@.len(),
                levels@.len() == i,
                forall|k: int| 0 <= k < i ==> #[trigger] levels@[k] == FactorAlgorithm::Dijkstra(dijkstras@[k]),
            decreases dijkstras@.len() - i,
        {
            levels.push(Self::Dijkstra(dijkstras[i]));
            i = i + 1;
        }
        assert(levels@ =~= Seq::new(dijkstras@.len(), |k: int| FactorAlgorithm::Dijkstra(dijkstras@[k])));
        levels
    }
}

impl Factor for FactorAlgorithm {
    open spec fn factor_text() -> Seq<char> {
        "Algorithm"@
    }

    open spec fn level_text(&self) -> Seq<char> {
        match self {
            FactorAlgorithm::Dijkstra(dijkstra) => "Dijkstra("@ + dijkstra.name_text() + ")"@,
        }
    }

    open spec fn cell_text(&self) -> Seq<char> {
        match self {
            FactorAlgorithm::Dijkstra(dijkstra) => dijkstra.cell_text(),
        }
    }

    fn query_header_index() -> (index: usize)
        ensures
            index == 4,
    {
        4
    }

    fn name_factor() -> (name: &'static str) {
        "Algorithm"
    }

    fn definition_factor() -> (definition: &'static str)
        ensures
            definition@ == "Single (s,t) shortest path algorithm."@,
    {
        "Single (s,t) shortest path algorithm."
    }

    fn definition_level(&self) -> (definition: String) {
        self.name_level()
    }

    fn name_level(&self) -> (name: String) {
        match self {
            Self::Dijkstra(d) => {
                let mut name = String::from_str("Dijkstra(");
                d.append_name(&mut name);
                name.append(")");
                assert(name@ =~= self.level_text());
                name
            },
        }
    }

    fn to_cell_string(&self) -> (cell: String) {
        match self {
            Self::Dijkstra(d) => d.to_cell_string(),
        }
    }
}

impl Default for FactorAlgorithm {
    fn default() -> (level: Self)
        ensures
            level == FactorAlgorithm::Dijkstra(Dijkstra::PriorityQueue(PriorityQueue::OrxDaryHeap(Dary::Binary))),
    {
        Self::Dijkstra(Dijkstra::PriorityQueue(PriorityQueue::OrxDaryHeap(Dary::Binary)))
    }
}

} // verus!
