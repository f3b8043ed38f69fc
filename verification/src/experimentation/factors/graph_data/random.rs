//! Random graphs of a given size and density.
use crate::graph::adjacency::{edge_added, Adjacency};
use crate::graph::sp_graph_builder::SpGraphBuilder;
use crate::experimentation::factors::graph_data::dimacs9th::{takes_nodes, with_nodes};
use crate::utils::places::{lemma_place_bounds, lemma_place_carry, lemma_place_first, place};
use crate::utils::rng::{rng_choose_multiple, rng_from_seed, rng_gen_range, rng_next_u32};
use crate::Weight;
use crate::utils::text::{append_decimal, decimal_text};
use vstd::prelude::*;
use vstd::string::StringExecFns;
use vstd::seq_lib::to_multiset_contains;
use vstd::set_lib::{lemma_int_range, lemma_subset_equality, set_int_range};

verus! {

/// A random graph: the seed of its random numbers, its number of nodes
/// and its density, a number between 0 (no edges) and 1 (all edges) that
/// is kept as the bits of a 32-bit IEEE 754 number.
#[derive(Clone, Copy, Debug, PartialEq, Eq, Structural)]
pub struct GraphRandom {
    pub seed: u64,
    pub num_nodes: usize,
    pub density_bits: u32,
}

pub const DEFAULT_SEED: u64 = 9864;

pub const DEFAULT_NUM_NODES: usize = 1000;

/// A quarter.
pub const DEFAULT_DENSITY_BITS: u32 = 0x3E80_0000;

impl Default for GraphRandom {
    fn default() -> (level: Self)
        ensures
            level == (GraphRandom {
                seed: DEFAULT_SEED,
                num_nodes: DEFAULT_NUM_NODES,
                density_bits: DEFAULT_DENSITY_BITS,
            }),
    {
        Self { seed: DEFAULT_SEED, num_nodes: DEFAULT_NUM_NODES, density_bits: DEFAULT_DENSITY_BITS }
    }
}

/// Why a random graph was not built.
#[derive(Clone, Copy, Debug, PartialEq, Eq, Structural)]
pub enum RandomGraphFault {
    /// There is not one out-degree for each node.
    OutDegrees,
    /// Twice the number of nodes, which bounds the weights, is no `usize`.
    TooManyNodes,
    /// The builder takes no more nodes.
    NodeRefused,
    /// The builder did not take an edge.
    EdgeRefused,
}

/// The out-degree that a node gets where `wanted` was asked for: no node
/// has an edge to itself or two edges to one node.
pub open spec fn granted(wanted: usize, nodes: usize) -> int {
    if wanted < nodes {
        wanted as int
    } else {
        nodes - 1
    }
}

/// Every edge leaving `node` leads to another node of the graph and has a
/// weight from one to below twice the number of nodes.
pub open spec fn row_drawn(row: Seq<(usize, Weight)>, node: int, nodes: usize) -> bool {
    forall|k: int|
        0 <= k < row.len() ==> {
            &&& (#[trigger] row[k]).0 < nodes
            &&& row[k].0 != node
            &&& 1 <= row[k].1 < 2 * nodes
        }
}

/// What holds of every graph that is drawn: it has `nodes` nodes, the
/// first `done` of them have the out-degree that they were granted, the
/// others have no edge, and the edges are as `row_drawn` says.
pub open spec fn drawn(staged: Adjacency, nodes: usize, out_degrees: Seq<usize>, done: int) -> bool {
    &&& staged.len() == nodes
    &&& forall|u: int| 0 <= u < nodes ==> row_drawn(#[trigger] staged[u], u, nodes)
    &&& forall|u: int| 0 <= u < done ==> (#[trigger] staged[u]).len() == granted(out_degrees[u], nodes)
    &&& forall|u: int| done <= u < nodes ==> (#[trigger] staged[u]).len() == 0
}

/// When a fault is reported. The first three faults come in this order
/// and on these inputs only; whether a builder that takes the nodes
/// refuses an edge depends on the edges that are drawn.
pub open spec fn refused<B: SpGraphBuilder>(nodes: usize, out_degrees: Seq<usize>, fault: RandomGraphFault) -> bool {
    match fault {
        RandomGraphFault::OutDegrees => out_degrees.len() != nodes,
        RandomGraphFault::TooManyNodes => out_degrees.len() == nodes && 2 * nodes > usize::MAX,
        RandomGraphFault::NodeRefused => out_degrees.len() == nodes && 2 * nodes <= usize::MAX && !takes_nodes::<B>(
            nodes as nat,
        ),
        RandomGraphFault::EdgeRefused => out_degrees.len() == nodes && 2 * nodes <= usize::MAX && takes_nodes::<B>(
            nodes as nat,
        ),
    }
}

/// What an added edge changes in the row of its tail.
pub proof fn lemma_edge_added_row(before: Adjacency, after: Adjacency, tail: int, head: usize, weight: Weight)
    requires
        edge_added(before, after, tail, head, weight),
    ensures
        after[tail].len() == before[tail].len() + 1,
        forall|k: int|
            0 <= k < after[tail].len() ==> (#[trigger] after[tail][k]) == (head, weight) || before[tail].contains(
                after[tail][k],
            ),
{
    before[tail].to_multiset_ensures();
    after[tail].to_multiset_ensures();
    assert forall|k: int| 0 <= k < after[tail].len() implies (#[trigger] after[tail][k]) == (head, weight)
        || before[tail].contains(after[tail][k]) by {
        let edge = after[tail][k];
        to_multiset_contains(after[tail], edge);
        to_multiset_contains(before[tail], edge);
        assert(after[tail].contains(edge));
    }
}

/// As many different numbers below `count` as there are numbers below
/// `count` are all of them.
pub proof fn lemma_all_chosen(places: Seq<int>, count: int, wanted: int)
    requires
        places.no_duplicates(),
        places.len() == count,
        forall|k: int| 0 <= k < places.len() ==> 0 <= #[trigger] places[k] < count,
        0 <= wanted < count,
    ensures
        exists|k: int| 0 <= k < places.len() && places[k] == wanted,
{
    let below = set_int_range(0, count);
    places.unique_seq_to_set();
    lemma_int_range(0, count);
    assert(places.to_set().subset_of(below)) by {
        assert forall|v: int| places.to_set().contains(v) implies below.contains(v) by {
            let k = choose|k: int| 0 <= k < places.len() && places[k] == v;
            assert(0 <= places[k] < count);
        }
    }
    vstd::seq_lib::seq_to_set_is_finite(places);
    lemma_subset_equality(places.to_set(), below);
    assert(below.contains(wanted));
    assert(places.to_set().contains(wanted));
}

/// The level at a place among the combinations of seeds, numbers of nodes
/// and densities, of which the densities vary fastest and the seeds
/// slowest.
pub open spec fn level_at(seed: Seq<u64>, num_nodes: Seq<usize>, density_bits: Seq<u32>, at: int) -> GraphRandom {
    let k = at % (density_bits.len() as int);
    let above = at / (density_bits.len() as int);
    let j = above % (num_nodes.len() as int);
    let i = above / (num_nodes.len() as int);
    GraphRandom { seed: seed[i], num_nodes: num_nodes[j], density_bits: density_bits[k] }
}

/// All combinations of seeds, numbers of nodes and densities.
pub open spec fn all_levels(seed: Seq<u64>, num_nodes: Seq<usize>, density_bits: Seq<u32>) -> Seq<GraphRandom> {
    Seq::new(
        seed.len() * num_nodes.len() * density_bits.len(),
        |at: int| level_at(seed, num_nodes, density_bits, at),
    )
}

/// The combination of the seed `i`, the number of nodes `j` and the
/// density `k` stands at its place.
pub proof fn lemma_level_at_place(
    seed: Seq<u64>,
    num_nodes: Seq<usize>,
    density_bits: Seq<u32>,
    i: int,
    j: int,
    k: int,
)
    requires
        0 <= i < seed.len(),
        0 <= j < num_nodes.len(),
        0 <= k < density_bits.len(),
    ensures
        0 <= place(place(i, num_nodes.len() as int, j), density_bits.len() as int, k) < all_levels(
            seed,
            num_nodes,
            density_bits,
        ).len(),
        all_levels(seed, num_nodes, density_bits)[place(
            place(i, num_nodes.len() as int, j),
            density_bits.len() as int,
            k,
        )] == (GraphRandom { seed: seed[i], num_nodes: num_nodes[j], density_bits: density_bits[k] }),
{
    let n = num_nodes.len() as int;
    let d = density_bits.len() as int;
    lemma_place_bounds(i, seed.len() as int, n, j);
    lemma_place_bounds(place(i, n, j), seed.len() * n, d, k);
}

impl GraphRandom {
    /// All combinations of the seeds, the numbers of nodes and the
    /// densities: the densities vary fastest and the seeds slowest.
    pub fn level_from_cli(seed: &Vec<u64>, num_nodes: &Vec<usize>, density_bits: &Vec<u32>) -> (combinations: Vec<
        Self,
    >)
        ensures
            combinations@ == all_levels(seed@, num_nodes@, density_bits@),
    {
        let mut combinations: Vec<Self> = Vec::new();
        let ghost n = num_nodes@.len() as int;
        let ghost d = density_bits@.len() as int;
        proof {
            lemma_place_first(n);
            lemma_place_first(d);
        }
        let mut i: usize = 0;
        while i < seed.len()
            invariant
                i <= seed@.len(),
                n == num_nodes@.len(),
                d == density_bits@.len(),
                combinations@.len() == place(place(i as int, n, 0), d, 0),
                forall|at: int|
                    0 <= at < combinations@.len() ==> #[trigger] combinations@[at] == level_at(
                        seed@,
                        num_nodes@,
                        density_bits@,
                        at,
                    ),
            decreases seed@.len() - i,
        {
            let mut j: usize = 0;
            while j < num_nodes.len()
                invariant
                    i < seed@.len(),
                    j <= num_nodes@.len(),
                    n == num_nodes@.len(),
                    d == density_bits@.len(),
                    combinations@.len() == place(place(i as int, n, j as int), d, 0),
                    forall|at: int|
                        0 <= at < combinations@.len() ==> #[trigger] combinations@[at] == level_at(
                            seed@,
                            num_nodes@,
                            density_bits@,
                            at,
                        ),
                decreases num_nodes@.len() - j,
            {
                let mut k: usize = 0;
                while k < density_bits.len()
                    invariant
                        i < seed@.len(),
                        j < num_nodes@.len(),
                        k <= density_bits@.len(),
                        n == num_nodes@.len(),
                        d == density_bits@.len(),
                        combinations@.len() == place(place(i as int, n, j as int), d, k as int),
                        forall|at: int|
                            0 <= at < combinations@.len() ==> #[trigger] combinations@[at] == level_at(
                                seed@,
                                num_nodes@,
                                density_bits@,
                                at,
                            ),
                    decreases density_bits@.len() - k,
                {
                    proof {
                        lemma_level_at_place(seed@, num_nodes@, density_bits@, i as int, j as int, k as int);
                    }
                    combinations.push(
                        Self { seed: seed[i], num_nodes: num_nodes[j], density_bits: density_bits[k] },
                    );
                    k = k + 1;
                }
                proof {
                    lemma_place_carry(place(i as int, n, j as int), d);
                }
                j = j + 1;
            }
            proof {
                lemma_place_carry(i as int, n);
            }
            i = i + 1;
        }
        assert(combinations@ =~= all_levels(seed@, num_nodes@, density_bits@));
        combinations
    }

    /// The name of the level.
    pub open spec fn name_text(self) -> Seq<char> {
        "GraphRandom { seed: "@ + decimal_text(self.seed as nat) + ", num_nodes: "@ + decimal_text(
            self.num_nodes as nat,
        ) + ", density_bits: "@ + decimal_text(self.density_bits as nat) + " }"@
    }

    /// Appends the name of the level.
    pub fn append_name(&self, text: &mut String)
        ensures
            final(text)@ == old(text)@ + self.name_text(),
    {
        text.append("GraphRandom { seed: ");
        append_decimal(text, self.seed);
        text.append(", num_nodes: ");
        append_decimal(text, self.num_nodes as u64);
        text.append(", density_bits: ");
        append_decimal(text, self.density_bits as u64);
        text.append(" }");
        assert(text@ =~= old(text)@ + self.name_text());
    }

    /// What the cell of a table says of the level. `density` is the
    /// density as the cell is to show it.
    pub open spec fn cell_text(self, density: Seq<char>) -> Seq<char> {
        "Random:\n* seed      : "@ + decimal_text(self.seed as nat) + "\n* num_nodes : "@ + decimal_text(
            self.num_nodes as nat,
        ) + "\n* density   : "@ + density
    }

    pub fn to_cell_string(self, density: &str) -> (cell: String)
        ensures
            cell@ == self.cell_text(density@),
    {
        let mut cell = String::from_str("Random:\n* seed      : ");
        append_decimal(&mut cell, self.seed);
        cell.append("\n* num_nodes : ");
        append_decimal(&mut cell, self.num_nodes as u64);
        cell.append("\n* density   : ");
        cell.append(density);
        assert(cell@ =~= self.cell_text(density@));
        cell
    }

    /// Builds a random graph of `num_nodes` nodes. `out_degrees` holds for
    /// each node the out-degree that the density gives it; they come from
    /// the first numbers of the generator, one for each node, which are
    /// taken and left unused here. A node gets edges to that many other
    /// nodes, to all others where there are not that many.
    pub fn create_graph_builder<B: SpGraphBuilder>(
        &self,
        out_degrees: &Vec<usize>,
    ) -> (result: Result<B, RandomGraphFault>)
        ensures
            match result {
                Ok(builder) => drawn(builder.staged(), self.num_nodes, out_degrees@, self.num_nodes as int),
                Err(fault) => refused::<B>(self.num_nodes, out_degrees@, fault),
            },
    {
        let num_nodes = self.num_nodes;
        if out_degrees.len() != num_nodes {
            return Err(RandomGraphFault::OutDegrees);
        }
        let weight_bound = match num_nodes.checked_mul(2) {
            Some(bound) => bound,
            None => {
                return Err(RandomGraphFault::TooManyNodes);
            },
        };

        let mut rng = rng_from_seed(self.seed);
        let mut nodes: Vec<usize> = Vec::new();
        let mut num_edges: Option<usize> = Some(0);
        let mut i: usize = 0;
        while i < num_nodes
            invariant
                i <= num_nodes,
                num_nodes == out_degrees@.len(),
                nodes@.len() == i,
                forall|j: int| 0 <= j < i ==> #[trigger] nodes@[j] == j,
            decreases num_nodes - i,
        {
            let _ = rng_next_u32(&mut rng);
            nodes.push(i);
            num_edges = match num_edges {
                Some(sum) => sum.checked_add(out_degrees[i]),
                None => None,
            };
            i = i + 1;
        }

        let mut builder: B = match with_nodes::<B>(num_nodes, num_edges) {
            Some(builder) => builder,
            None => {
                return Err(RandomGraphFault::NodeRefused);
            },
        };
        assert(drawn(builder.staged(), num_nodes, out_degrees@, 0));

        let mut i: usize = 0;
        while i < num_nodes
            invariant
                i <= num_nodes,
                num_nodes == self.num_nodes,
                num_nodes == out_degrees@.len(),
                weight_bound == 2 * num_nodes,
                takes_nodes::<B>(num_nodes as nat),
                nodes@.len() == num_nodes,
                forall|j: int| 0 <= j < num_nodes ==> #[trigger] nodes@[j] == j,
                drawn(builder.staged(), num_nodes, out_degrees@, i as int),
            decreases num_nodes - i,
        {
            let out_degree = out_degrees[i];
            let chosen = rng_choose_multiple(&mut rng, &nodes, out_degree.saturating_add(1));
            let ghost places = choose|places: Seq<int>|
                {
                    &&& #[trigger] places.len() == chosen@.len()
                    &&& places.len() == if out_degree.saturating_add(1) <= nodes@.len() {
                        out_degree.saturating_add(1) as nat
                    } else {
                        nodes@.len()
                    }
                    &&& places.no_duplicates()
                    &&& forall|k: int|
                        0 <= k < places.len() ==> 0 <= #[trigger] places[k] < nodes@.len() && chosen@[k]
                            == nodes@[places[k]]
                };
            let ghost before = builder.staged();
            let mut taken: usize = 0;
            let mut passed: usize = 0;
            let mut j: usize = 0;
            while j < chosen.len() && taken < out_degree
                invariant
                    i < num_nodes,
                    num_nodes == self.num_nodes,
                    num_nodes == out_degrees@.len(),
                    takes_nodes::<B>(num_nodes as nat),
                    before.len() == num_nodes,
                    weight_bound == 2 * num_nodes,
                    out_degree == out_degrees@[i as int],
                    j <= chosen@.len(),
                    chosen@.len() <= num_nodes,
                    places.len() == chosen@.len(),
                    places.no_duplicates(),
                    forall|k: int| 
                        0 <= k < chosen@.len()
                            ==> chosen@[k] == #[trigger] places[k] && chosen@[k] < num_nodes,
                    taken <= out_degree,
                    taken + passed == j,
                    passed <= 1,
                    passed == 1 ==> exists|k: int| 0 <= k < j && chosen@[k] == i,
                    passed == 0 ==> forall|k: int| 0 <= k < j ==> chosen@[k] != i,
                    chosen@.len() == if out_degree.saturating_add(1) <= num_nodes {
                        out_degree.saturating_add(1) as nat
                    } else {
                        num_nodes as nat
                    },
                    builder.staged().len() == num_nodes,
                    forall|u: int| 0 <= u < num_nodes ==> row_drawn(#[trigger] builder.staged()[u], u, num_nodes),
                    forall|u: int| 0 <= u < num_nodes && u != i ==> #[trigger] builder.staged()[u] == before[u],
                    builder.staged()[i as int].len() == taken,
                decreases chosen@.len() - j,
            {
                let head = chosen[j];
                assert(chosen@[j as int] == places[j as int]);
                if head != i {
                    let weight = rng_gen_range(&mut rng, 1, weight_bound) as Weight;
                    if !builder.can_add_edge(i, head) {
                        return Err(RandomGraphFault::EdgeRefused);
                    }
                    let ghost old_staged = builder.staged();
                    builder.add_edge(i, head, weight);
                    proof {
                        B::lemma_edge_is_added(old_staged, i, head, weight);
                        lemma_edge_added_row(old_staged, builder.staged(), i as int, head, weight);
                        let row = builder.staged()[i as int];
                        assert forall|k: int| 0 <= k < row.len() implies {
                            &&& (#[trigger] row[k]).0 < num_nodes
                            &&& row[k].0 != i
                            &&& 1 <= row[k].1 < 2 * num_nodes
                        } by {
                            if row[k] != (head, weight) {
                                let at = choose|at: int| 0 <= at < old_staged[i as int].len() && old_staged[i as int][at]
                                    == row[k];
                                assert(row_drawn(old_staged[i as int], i as int, num_nodes));
                            }
                        }
                        assert forall|u: int| 0 <= u < num_nodes implies row_drawn(
                            #[trigger] builder.staged()[u],
                            u,
                            num_nodes,
                        ) by {
                            if u != i {
                                assert(builder.staged()[u] == old_staged[u]);
                                assert(row_drawn(old_staged[u], u, num_nodes));
                            }
                        }
                    }
                    taken = taken + 1;
                } else {
                    proof {
                        if passed == 1 {
                            let k = choose|k: int| 0 <= k < j && chosen@[k] == i;
                            assert(places[k] == places[j as int]);
                        }
                    }
                    passed = passed + 1;
                }
                j = j + 1;
            }
            proof {
                if j == chosen@.len() && passed == 0 && chosen@.len() == num_nodes {
                    lemma_all_chosen(places, num_nodes as int, i as int);
                    let k = choose|k: int| 0 <= k < places.len() && places[k] == i;
                    assert(chosen@[k] == places[k]);
                }
                assert(builder.staged()[i as int].len() == granted(out_degree, num_nodes));
                assert forall|u: int| 0 <= u < i + 1 implies (#[trigger] builder.staged()[u]).len() == granted(
                    out_degrees@[u],
                    num_nodes,
                ) by {
                    if u != i {
                        assert(builder.staged()[u] == before[u]);
                    }
                }
                assert forall|u: int| i + 1 <= u < num_nodes implies
                    (#[trigger] builder.staged()[u]).len() == 0 by {
                    assert(builder.staged()[u] == before[u]);
                }
            }
            i = i + 1;
        }
        Ok(builder)
    }
}

} // verus!
