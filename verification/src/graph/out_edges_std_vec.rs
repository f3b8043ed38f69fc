//! Edges kept in a `Vec`, and a cursor over a stretch of such a `Vec`.
use crate::graph::out_edges::{OutEdgeData, OutEdges};
use crate::Weight;
use vstd::prelude::*;

verus! {

/// An edge stored with its head and its weight.
#[derive(Clone, Copy, Debug)]
pub struct OutEdge {
    head: usize,
    weight: Weight,
}

impl OutEdge {
    pub fn new(head: usize, weight: Weight) -> (edge: Self)
        ensures
            edge.as_pair() == (head, weight),
    {
        Self { head, weight }
    }
}

impl OutEdgeData for OutEdge {
    closed spec fn as_pair(&self) -> (usize, Weight) {
        (self.head, self.weight)
    }

    #[inline(always)]
    fn head(&self) -> (head: usize) {
        self.head
    }

    #[inline(always)]
    fn weight(&self) -> (weight: Weight) {
        self.weight
    }
}

/// The stored edges as pairs of head and weight.
pub open spec fn edge_pairs(edges: Seq<OutEdge>) -> Seq<(usize, Weight)> {
    Seq::new(edges.len(), |k: int| edges[k].as_pair())
}

/// A cursor over the edges `edges[next..end]`.
pub struct OutEdgesStdVec<'a> {
    edges: &'a Vec<OutEdge>,
    next: usize,
    end: usize,
}

impl<'a> OutEdgesStdVec<'a> {
    #[verifier::type_invariant]
    spec fn well_formed(&self) -> bool {
        self.next <= self.end <= self.edges@.len()
    }

    /// A cursor over all of `edges`.
    pub fn over(edges: &'a Vec<OutEdge>) -> (cursor: Self)
        ensures
            cursor.remaining() == edge_pairs(edges@),
    {
        let cursor = Self { edges, next: 0, end: edges.len() };
        assert(cursor.remaining() =~= edge_pairs(edges@));
        cursor
    }

    /// A cursor over `edges[begin..end]`.
    pub fn over_range(edges: &'a Vec<OutEdge>, begin: usize, end: usize) -> (cursor: Self)
        requires
            begin <= end <= edges@.len(),
        ensures
            cursor.remaining() == edge_pairs(edges@).subrange(begin as int, end as int),
    {
        let cursor = Self { edges, next: begin, end };
        assert(cursor.remaining() =~= edge_pairs(edges@).subrange(begin as int, end as int));
        cursor
    }
}

impl<'a> OutEdges for OutEdgesStdVec<'a> {
    type Edge = OutEdge;

    closed spec fn remaining(&self) -> Seq<(usize, Weight)> {
        edge_pairs(self.edges@.subrange(self.next as int, self.end as int))
    }

    fn next_edge(&mut self) -> (edge: Option<OutEdge>) {
        proof {
            use_type_invariant(&*self);
        }
        if self.next < self.end {
            let e = self.edges[self.next];
            self.next = self.next + 1;
            assert(self.remaining() =~= old(self).remaining().drop_first());
            Some(e)
        } else {
            None
        }
    }

    fn count_edges(&mut self) -> (count: usize) {
        proof {
            use_type_invariant(&*self);
        }
        let count = self.end - self.next;
        self.next = self.end;
        count
    }
}

} // verus!
