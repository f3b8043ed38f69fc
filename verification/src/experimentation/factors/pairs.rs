//! The pairs factor: the source-sink pairs of a treatment, drawn at random.
use crate::utils::places::{lemma_place_bounds, lemma_place_carry, lemma_place_first, place};
use crate::utils::rng::{rng_from_seed, rng_gen_range};
use crate::experimentation::factors::factor::Factor;
use crate::utils::text::{append_decimal, decimal_text};
use vstd::prelude::*;
use vstd::string::StringExecFns;

verus! {

#[derive(Clone, Copy, Debug, PartialEq, Eq, Structural)]
pub struct FactorPairs {
    pub seed: u64,
    pub num_pairs: usize,
}

pub const DEFAULT_SEED: u64 = 465477;

pub const DEFAULT_NUM_PAIRS: usize = 100;

impl FactorPairs {
    /// The levels of all seeds with all numbers of pairs: the numbers of
    /// pairs vary fastest.
    pub fn query_levels_from_cli(seed: &Vec<u64>, num_pairs: &Vec<usize>) -> (combinations: Vec<Self>)
        ensures
            combinations@.len() == seed@.len() * num_pairs@.len(),
            forall|i: int, j: int|
                0 <= i < seed@.len() && 0 <= j < num_pairs@.len() ==> combinations@[#[trigger] place(
                    i,
                    num_pairs@.len() as int,
                    j,
                )] == (FactorPairs { seed: seed@[i], num_pairs: num_pairs@[j] }),
    {
        let mut combinations: Vec<Self> = Vec::new();
        let ghost base = num_pairs@.len() as int;
        proof {
            lemma_place_first(base);
        }
        let mut i: usize = 0;
        while i < seed.len()
            invariant
                i <= seed@.len(),
                base == num_pairs@.len(),
                combinations@.len() == place(i as int, base, 0),
                forall|a: int, b: int|
                    0 <= a < i && 0 <= b < base ==> combinations@[#[trigger] place(a, base, b)] == (FactorPairs {
                        seed: seed@[a],
                        num_pairs: num_pairs@[b],
                    }),
            decreases seed@.len() - i,
        {
            let mut j: usize = 0;
            while j < num_pairs.len()
                invariant
                    i < seed@.len(),
                    j <= num_pairs@.len(),
                    base == num_pairs@.len(),
                    combinations@.len() == place(i as int, base, j as int),
                    forall|a: int, b: int|
                        0 <= a < i && 0 <= b < base ==> combinations@[#[trigger] place(a, base, b)] == (FactorPairs {
                            seed: seed@[a],
                            num_pairs: num_pairs@[b],
                        }),
                    forall|b: int|
                        0 <= b < j ==> combinations@[#[trigger] place(i as int, base, b)] == (FactorPairs {
                            seed: seed@[i as int],
                            num_pairs: num_pairs@[b],
                        }),
                decreases num_pairs@.len() - j,
            {
                let ghost before = combinations@;
                combinations.push(Self { seed: seed[i], num_pairs: num_pairs[j] });
                proof {
                    assert forall|a: int, b: int| 0 <= a < i && 0 <= b < base implies combinations@[#[trigger] place(
                        a,
                        base,
                        b,
                    )] == (FactorPairs { seed: seed@[a], num_pairs: num_pairs@[b] }) by {
                        lemma_place_bounds(a, i as int, base, b);
                        lemma_place_carry(i as int - 1, base);
                        assert(place(a, base, b) < place(i as int, base, 0)) by (nonlinear_arith)
                            requires
                                0 <= a < i,
                                0 <= b < base,
                        ;
                        assert(before[place(a, base, b)] == (FactorPairs { seed: seed@[a], num_pairs: num_pairs@[b] }));
                    }
                    assert forall|b: int| 0 <= b < j + 1 implies combinations@[#[trigger] place(i as int, base, b)]
                        == (FactorPairs { seed: seed@[i as int], num_pairs: num_pairs@[b] }) by {
                        if b < j {
                            assert(before[place(i as int, base, b)] == (FactorPairs {
                                seed: seed@[i as int],
                                num_pairs: num_pairs@[b],
                            }));
                        }
                    }
                }
                j = j + 1;
            }
            proof {
                lemma_place_carry(i as int, base);
            }
            i = i + 1;
        }
        proof {
            assert(place(seed@.len() as int, base, 0) == seed@.len() * num_pairs@.len()) by (nonlinear_arith)
                requires
                    base == num_pairs@.len(),
            ;
        }
        combinations
    }

    /// Draws `num_pairs` pairs of nodes of a graph with `num_nodes` nodes.
    pub fn create_pairs(&self, num_nodes: usize) -> (pairs: Vec<(usize, usize)>)
        requires
            self.num_pairs > 0 ==> num_nodes > 0,
        ensures
            pairs@.len() == self.num_pairs,
            forall|i: int| 
                0 <= i < pairs@.len()
                    ==> (#[trigger] pairs@[i]).0 < num_nodes && pairs@[i].1 < num_nodes,
    {
        let mut rng = rng_from_seed(self.seed);
        let mut pairs: Vec<(usize, usize)> = Vec::new();
        let mut i: usize = 0;
        while i < self.num_pairs
            invariant
                i <= self.num_pairs,
                self.num_pairs > 0 ==> num_nodes > 0,
                pairs@.len() == i,
                forall|j: int| 
                    0 <= j < pairs@.len()
                        ==> (#[trigger] pairs@[j]).0 < num_nodes && pairs@[j].1 < num_nodes,
            decreases self.num_pairs - i,
        {
            let s = rng_gen_range(&mut rng, 0, num_nodes);
            let t = rng_gen_range(&mut rng, 0, num_nodes);
            pairs.push((s, t));
            i = i + 1;
        }
        pairs
    }
}

impl Factor for FactorPairs {
    open spec fn factor_text() -> Seq<char> {
        "Source-Sink Pairs"@
    }

    open spec fn level_text(&self) -> Seq<char> {
        "FactorPairs { seed: "@ + decimal_text(self.seed as nat) + ", num_pairs: "@ + decimal_text(
            self.num_pairs as nat,
        ) + " }"@
    }

    open spec fn cell_text(&self) -> Seq<char> {
        "* seed      : "@ + decimal_text(self.seed as nat) + "\n* num_pairs : "@ + decimal_text(
            self.num_pairs as nat,
        )
    }

    fn query_header_index() -> (index: usize)
        ensures
            index == 6,
    {
        6
    }

    fn name_factor() -> (name: &'static str) {
        "Source-Sink Pairs"
    }

    fn definition_factor() -> (definition: &'static str)
        ensures
            definition@ == "Source-sink pairs shortest distances of which will be computed in the experiment."@,
    {
        "Source-sink pairs shortest distances of which will be computed in the experiment."
    }

    fn definition_level(&self) -> (definition: String) {
        self.name_level()
    }

    fn name_level(&self) -> (name: String) {
        let mut name = String::from_str("FactorPairs { seed: ");
        append_decimal(&mut name, self.seed);
        name.append(", num_pairs: ");
        append_decimal(&mut name, self.num_pairs as u64);
        name.append(" }");
        assert(name@ =~= self.level_text());
        name
    }

    fn to_cell_string(&self) -> (cell: String) {
        let mut cell = String::from_str("* seed      : ");
        append_decimal(&mut cell, self.seed);
        cell.append("\n* num_pairs : ");
        append_decimal(&mut cell, self.num_pairs as u64);
        assert(cell@ =~= self.cell_text());
        cell
    }
}

impl Default for FactorPairs {
    fn default() -> (level: Self)
        ensures
            level == (FactorPairs { seed: DEFAULT_SEED, num_pairs: DEFAULT_NUM_PAIRS }),
    {
        Self { seed: DEFAULT_SEED, num_pairs: DEFAULT_NUM_PAIRS }
    }
}

} // verus!
