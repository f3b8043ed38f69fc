//! What the algorithms ask of an edge, and of the edges leaving a node.
use crate::Weight;
use vstd::prelude::*;

verus! {

/// An edge as seen from its tail.
pub trait OutEdgeData {
    /// Head and weight of the edge.
    spec fn as_pair(&self) -> (usize, Weight);

    fn head(&self) -> (head: usize)
        ensures
            head == self.as_pair().0,
    ;

    fn weight(&self) -> (weight: Weight)
        ensures
            weight == self.as_pair().1,
    ;
}

/// The edges leaving one node, handed out one by one.
pub trait OutEdges {
    type Edge: OutEdgeData;

    /// The edges not handed out yet, in the order in which they will come.
    spec fn remaining(&self) -> Seq<(usize, Weight)>;

    /// Hands out the next edge, `None` once there is none left.
    fn next_edge(&mut self) -> (edge: Option<Self::Edge>)
        ensures
            match edge {
                Some(e) => {
                    &&& old(self).remaining().len() > 0
                    &&& e.as_pair() == old(self).remaining()[0]
                    &&& final(self).remaining() == old(self).remaining().drop_first()
                },
                None => old(self).remaining().len() == 0 && final(self).remaining().len() == 0,
            },
    ;

    /// Counts the edges not handed out yet, and uses them up.
    fn count_edges(&mut self) -> (count: usize)
        ensures
            count == old(self).remaining().len(),
            final(self).remaining().len() == 0,
    ;
}

} // verus!
