//! The edges leaving a node of a `petgraph` graph, taken out of the graph
//! before they are handed out.
use crate::graph::out_edges::OutEdges;
use crate::graph::out_edges_std_vec::{edge_pairs, OutEdge};
use crate::Weight;
use vstd::prelude::*;

verus! {

/// A cursor over edges that it owns.
pub struct OutEdgesPetgraph {
    edges: Vec<OutEdge>,
    next: usize,
}

impl OutEdgesPetgraph {
    #[verifier::type_invariant]
    spec fn well_formed(&self) -> bool {
        self.next <= self.edges@.len()
    }

    /// A cursor over all of `edges`.
    pub fn over(edges: Vec<OutEdge>) -> (cursor: Self)
        ensures
            cursor.remaining() == edge_pairs(edges@),
    {
        let cursor = Self { edges, next: 0 };
        assert(cursor.remaining() =~= edge_pairs(edges@));
        cursor
    }
}

impl OutEdges for OutEdgesPetgraph {
    type Edge = OutEdge;

    closed spec fn remaining(&self) -> Seq<(usize, Weight)> {
        edge_pairs(self.edges@.subrange(self.next as int, self.edges@.len() as int))
    }

    fn next_edge(&mut self) -> (edge: Option<OutEdge>) {
        proof {
            use_type_invariant(&*self);
        }
        if self.next < self.edges.len() {
            let e = self.edges[self.next];
            self.next = self.next + 1;
            assert(self.remaining() =~= old(self).remaining().drop_first());
            Some(e)
        } else {
            None
        }
    }

    fn count_edges(&mut self) -> (count: usize) {
        proof {
            use_type_invariant(&*self);
        }
        let count = self.edges.len() - self.next;
        self.next = self.edges.len();
        count
    }
}

} // verus!
