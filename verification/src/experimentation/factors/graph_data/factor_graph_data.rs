//! The graph data factor, and what a graph is built from.
use crate::experimentation::factors::graph_data::dimacs9th::{
    described_graph, texts, DimacsError, GraphDimacs9th,
};
use crate::experimentation::factors::graph_data::random::{
    drawn, refused, GraphRandom, RandomGraphFault, DEFAULT_DENSITY_BITS, DEFAULT_NUM_NODES,
    DEFAULT_SEED,
};
use crate::graph::adjacency::Adjacency;
use crate::graph::sp_graph_builder::SpGraphBuilder;
use crate::experimentation::factors::factor::Factor;
use crate::utils::text::{append_decimal, decimal_text};
use vstd::prelude::*;
use vstd::string::StringExecFns;

verus! {

#[derive(Clone, Copy, Debug, PartialEq, Eq, Structural)]
pub enum FactorGraphData {
    Random(GraphRandom),
    Dimacs9th(GraphDimacs9th),
}

/// What was read or computed for a level of the graph data factor: for a
/// random graph the out-degree of each node, for a road network the lines
/// of its text.
pub enum GraphSource {
    Random { out_degrees: Vec<usize> },
    Dimacs9th { lines: Vec<Vec<u8>> },
}

/// Why there is no graph to run queries on.
#[derive(Clone, Copy, Debug, PartialEq, Eq, Structural)]
pub enum GraphFault {
    /// The source is not one of the level.
    SourceMismatch,
    Random(RandomGraphFault),
    Dimacs9th(DimacsError),
    /// An edge leads to a node that the graph does not have.
    HeadOutOfRange,
    /// The weights are not bounded, so that distances may not fit.
    WeightsTooLarge,
    /// Pairs are to be drawn from a graph without nodes.
    NoNodes,
}

impl Factor for FactorGraphData {
    open spec fn factor_text() -> Seq<char> {
        "Graph Data"@
    }

    open spec fn level_text(&self) -> Seq<char> {
        match self {
            FactorGraphData::Random(random) => "Random("@ + random.name_text() + ")"@,
            FactorGraphData::Dimacs9th(network) => "Dimacs9th("@ + network.name_text() + ")"@,
        }
    }

    /// The cell of a random graph shows the density as its bits, after the
    /// word `bits`.
    open spec fn cell_text(&self) -> Seq<char> {
        match self {
            FactorGraphData::Random(random) => random.cell_text(
                "bits "@ + decimal_text(random.density_bits as nat),
            ),
            FactorGraphData::Dimacs9th(network) => network.cell_text(),
        }
    }

    fn query_header_index() -> (index: usize)
        ensures
            index == 2,
    {
        2
    }

    fn name_factor() -> (name: &'static str) {
        "Graph Data"
    }

    fn definition_factor() -> (definition: &'static str)
        ensures
            definition@ == "Input graph of the problem."@,
    {
        "Input graph of the problem."
    }

    fn definition_level(&self) -> (definition: String) {
        self.name_level()
    }

    fn name_level(&self) -> (name: String) {
        match self {
            Self::Random(x) => {
                let mut name = String::from_str("Random(");
                x.append_name(&mut name);
                name.append(")");
                assert(name@ =~= self.level_text());
                name
            },
            Self::Dimacs9th(x) => {
                let mut name = String::from_str("Dimacs9th(");
                name.append(x.name());
                name.append(")");
                assert(name@ =~= self.level_text());
                name
            },
        }
    }

    fn to_cell_string(&self) -> (cell: String) {
        match self {
            Self::Random(x) => {
                let mut density = String::from_str("bits ");
                append_decimal(&mut density, x.density_bits as u64);
                x.to_cell_string(density.as_str())
            },
            Self::Dimacs9th(x) => x.to_cell_string(),
        }
    }
}

impl Default for FactorGraphData {
    fn default() -> (level: Self)
        ensures
            level == FactorGraphData::Random(
                GraphRandom {
                    seed: DEFAULT_SEED,
                    num_nodes: DEFAULT_NUM_NODES,
                    density_bits: DEFAULT_DENSITY_BITS,
                },
            ),
    {
        Self::Random(GraphRandom::default())
    }
}

impl FactorGraphData {
    /// `staged` is a graph that a builder of type `B` may hold once it has
    /// been built from the source.
    pub open spec fn stages<B: SpGraphBuilder>(&self, source: GraphSource, staged: Adjacency) -> bool {
        match (*self, source) {
            (FactorGraphData::Random(random), GraphSource::Random { out_degrees }) => drawn(
                staged,
                random.num_nodes,
                out_degrees@,
                random.num_nodes as int,
            ),
            (FactorGraphData::Dimacs9th(_), GraphSource::Dimacs9th { lines }) => described_graph::<B>(texts(lines@))
                == Ok::<Adjacency, DimacsError>(staged),
            _ => false,
        }
    }

    /// `fault` is why a builder of type `B` is not built from the source.
    pub open spec fn rejects<B: SpGraphBuilder>(&self, source: GraphSource, fault: GraphFault) -> bool {
        match (*self, source) {
            (FactorGraphData::Random(random), GraphSource::Random { out_degrees }) => fault matches GraphFault::Random(
                fault,
            ) && refused::<B>(random.num_nodes, out_degrees@, fault),
            (FactorGraphData::Dimacs9th(_), GraphSource::Dimacs9th { lines }) => fault matches GraphFault::Dimacs9th(
                error,
            ) && described_graph::<B>(texts(lines@)) == Err::<Adjacency, DimacsError>(error),
            _ => fault == GraphFault::SourceMismatch,
        }
    }

    /// Builds the graph of this level from its source.
    pub fn create_graph_builder<B: SpGraphBuilder>(
        &self,
        source: &GraphSource,
    ) -> (result: Result<B, GraphFault>)
        ensures
            match result {
                Ok(builder) => self.stages::<B>(*source, builder.staged()),
                Err(fault) => self.rejects::<B>(*source, fault),
            },
    {
        match self {
            Self::Random(x) => match source {
                GraphSource::Random { out_degrees } => match x.create_graph_builder::<B>(out_degrees) {
                    Ok(builder) => Ok(builder),
                    Err(fault) => Err(GraphFault::Random(fault)),
                },
                _ => Err(GraphFault::SourceMismatch),
            },
            Self::Dimacs9th(x) => match source {
                GraphSource::Dimacs9th { lines } => match x.create_graph_builder::<B>(lines) {
                    Ok(builder) => Ok(builder),
                    Err(error) => Err(GraphFault::Dimacs9th(error)),
                },
                _ => Err(GraphFault::SourceMismatch),
            },
        }
    }
}

} // verus!
