//! Adjacency list as one `Vec` of all edges with, for each node, the index
//! at which its edges begin.
use crate::graph::adjacency::{lemma_with_edge_last_added, with_edge_last, Adjacency};
use crate::graph::adjlist_jagged_vec::{jagged_adjacency, AdjListJaggedVec};
use crate::graph::out_edges_std_vec::{edge_pairs, OutEdge, OutEdgesStdVec};
use crate::graph::sp_graph::SpGraph;
use crate::graph::sp_graph_builder::SpGraphBuilder;
use crate::Weight;
use vstd::prelude::*;

verus! {

/// The edges of node `u` are `edges[out_edges_begin_index[u]..out_edges_begin_index[u + 1]]`.
pub struct AdjListFlatVec {
    edges: Vec<OutEdge>,
    out_edges_begin_index: Vec<usize>,
}

/// The begin indices split the edges node by node: they start at 0, never
/// decrease and end at the number of edges.
pub open spec fn splits(begin: Seq<usize>, num_edges: int) -> bool {
    &&& begin.len() >= 1
    &&& begin[0] == 0
    &&& begin[begin.len() - 1] == num_edges
    &&& forall|u: int, v: int| 0 <= u <= v < begin.len() ==> #[trigger] begin[u] <= #[trigger] begin[v]
}

/// The graph that flat storage holds.
pub open spec fn flat_adjacency(edges: Seq<OutEdge>, begin: Seq<usize>) -> Adjacency {
    Seq::new(
        (begin.len() - 1) as nat,
        |u: int| edge_pairs(edges).subrange(begin[u] as int, begin[u + 1] as int),
    )
}

impl AdjListFlatVec {
    #[verifier::type_invariant]
    spec fn well_formed(&self) -> bool {
        splits(self.out_edges_begin_index@, self.edges@.len() as int)
    }
}

impl SpGraph for AdjListFlatVec {
    type OutEdges<'a> = OutEdgesStdVec<'a>;

    closed spec fn adjacency(&self) -> Adjacency {
        flat_adjacency(self.edges@, self.out_edges_begin_index@)
    }

    fn name() -> (name: &'static str)
        ensures
            name@ == "AdjListFlatVec"@,
    {
        "AdjListFlatVec"
    }

    fn num_nodes(&self) -> (n: usize) {
        proof {
            use_type_invariant(self);
        }
        self.out_edges_begin_index.len() - 1
    }

    fn out_edges(&self, node: usize) -> (edges: Self::OutEdges<'_>) {
        proof {
            use_type_invariant(self);
        }
        assert(node + 1 < self.out_edges_begin_index@.len());
        let _ = self.out_edges_begin_index.len();
        let begin = self.out_edges_begin_index[node];
        let end = self.out_edges_begin_index[node + 1];
        OutEdgesStdVec::over_range(&self.edges, begin, end)
    }
}

/// Stages the edges node by node; `build` lays them out flat.
pub struct AdjListFlatVecBuilder(pub AdjListJaggedVec);

impl SpGraphBuilder for AdjListFlatVecBuilder {
    type G = AdjListFlatVec;

    open spec fn staged(&self) -> Adjacency {
        jagged_adjacency(self.0@)
    }

    open spec fn takes_node(staged: Adjacency) -> bool {
        true
    }

    /// The tail has to be a node; the head may be added later.
    open spec fn takes_edge(staged: Adjacency, tail: usize, head: usize) -> bool {
        tail < staged.len()
    }

    /// The edge becomes the last of those leaving `tail`.
    open spec fn with_edge(staged: Adjacency, tail: usize, head: usize, weight: Weight) -> Adjacency {
        with_edge_last(staged, tail as int, head, weight)
    }

    proof fn lemma_edge_is_added(staged: Adjacency, tail: usize, head: usize, weight: Weight) {
        lemma_with_edge_last_added(staged, tail as int, head, weight);
    }

    fn can_add_node(&self) -> (can: bool) {
        true
    }

    fn can_add_edge(&self, tail: usize, head: usize) -> (can: bool) {
        self.0.can_add_edge(tail, head)
    }

    fn new(nodes_capacity: Option<usize>, edges_capacity: Option<usize>) -> (builder: Self) {
        Self(<AdjListJaggedVec as SpGraphBuilder>::new(nodes_capacity, edges_capacity))
    }

    fn add_node(&mut self, node: usize, out_degree_capacity: Option<usize>) {
        self.0.add_node(node, out_degree_capacity)
    }

    fn add_edge(&mut self, tail: usize, head: usize, weight: Weight) {
        self.0.add_edge(tail, head, weight)
    }

    fn build(self) -> (graph: Self::G) {
        let rows = self.0;
        let mut edges: Vec<OutEdge> = Vec::new();
        let mut out_edges_begin_index: Vec<usize> = Vec::new();
        out_edges_begin_index.push(0);
        let mut u: usize = 0;
        while u < rows.len()
            invariant
                u <= rows@.len(),
                out_edges_begin_index@.len() == u + 1,
                splits(out_edges_begin_index@, edges@.len() as int),
                laid_out(rows@, edges@, out_edges_begin_index@, u as int),
            decreases rows@.len() - u,
        {
            let row = &rows[u];
            let ghost before = edges@;
            let ghost begin_before = out_edges_begin_index@;
            let mut k: usize = 0;
            while k < row.len()
                invariant
                    k <= row@.len(),
                    edges@ == before + row@.subrange(0, k as int),
                decreases row@.len() - k,
            {
                edges.push(row[k]);
                k = k + 1;
                assert(edges@ =~= before + row@.subrange(0, k as int));
            }
            assert(row@.subrange(0, row@.len() as int) =~= row@);
            out_edges_begin_index.push(edges.len());
            proof {
                lemma_lay_out_row(rows@, before, begin_before, u as int);
            }
            u = u + 1;
        }
        let graph = AdjListFlatVec { edges, out_edges_begin_index };
        proof {
            lemma_laid_out_adjacency(rows@, graph.edges@, graph.out_edges_begin_index@);
        }
        graph
    }
}

/// The first `upto` rows lie in `edges` one after the other, where `begin` says.
pub open spec fn laid_out(rows: Seq<Vec<OutEdge>>, edges: Seq<OutEdge>, begin: Seq<usize>, upto: int) -> bool {
    forall|v: int|
        0 <= v < upto ==> #[trigger] rows[v]@ == edges.subrange(begin[v] as int, begin[v + 1] as int)
}

proof fn lemma_lay_out_row(rows: Seq<Vec<OutEdge>>, edges: Seq<OutEdge>, begin: Seq<usize>, u: int)
    requires
        0 <= u < rows.len(),
        begin.len() == u + 1,
        splits(begin, edges.len() as int),
        laid_out(rows, edges, begin, u),
        edges.len() + rows[u]@.len() <= usize::MAX,
    ensures
        splits(begin.push((edges.len() + rows[u]@.len()) as usize), (edges.len() + rows[u]@.len()) as int),
        laid_out(rows, edges + rows[u]@, begin.push((edges.len() + rows[u]@.len()) as usize), u + 1),
{
    let row = rows[u]@;
    let edges2 = edges + row;
    let begin2 = begin.push((edges.len() + row.len()) as usize);
    assert forall|v: int, w: int| 0 <= v <= w < begin2.len() implies
        #[trigger] begin2[v] <= #[trigger] begin2[w] by {
        if w <= u {
            assert(begin[v] <= begin[w]);
        } else if v <= u {
            assert(begin[v] <= begin[u]);
        }
    }
    assert forall|v: int| 0 <= v < u + 1 implies #[trigger] rows[v]@ == edges2.subrange(
        begin2[v] as int,
        begin2[v + 1] as int,
    ) by {
        if v < u {
            assert(edges2.subrange(begin2[v] as int, begin2[v + 1] as int) =~= edges.subrange(
                begin[v] as int,
                begin[v + 1] as int,
            ));
        } else {
            assert(edges2.subrange(begin2[v] as int, begin2[v + 1] as int) =~= row);
        }
    }
}

proof fn lemma_laid_out_adjacency(rows: Seq<Vec<OutEdge>>, edges: Seq<OutEdge>, begin: Seq<usize>)
    requires
        begin.len() == rows.len() + 1,
        splits(begin, edges.len() as int),
        laid_out(rows, edges, begin, rows.len() as int),
    ensures
        flat_adjacency(edges, begin) == jagged_adjacency(rows),
{
    assert forall|u: int| 0 <= u < rows.len() implies #[trigger] flat_adjacency(edges, begin)[u]
        == jagged_adjacency(rows)[u] by {
        assert(rows[u]@ == edges.subrange(begin[u] as int, begin[u + 1] as int));
        assert(edge_pairs(edges).subrange(begin[u] as int, begin[u + 1] as int) =~= edge_pairs(
            edges.subrange(begin[u] as int, begin[u + 1] as int),
        ));
    }
    assert(flat_adjacency(edges, begin) =~= jagged_adjacency(rows));
}

} // verus!
