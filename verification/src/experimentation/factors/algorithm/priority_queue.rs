//! Frontiers without decrease-key.
use crate::experimentation::factors::algorithm::dary::Dary;
use crate::utils::cli::{append_all, choices, flattened, print_table_get_choices};
use crate::utils::text::{append_decimal, decimal_text};
use vstd::prelude::*;
use vstd::string::StringExecFns;

verus! {

#[derive(Clone, Copy, Debug, PartialEq, Eq, Structural)]
pub enum PriorityQueue {
    OrxDaryHeap(Dary),
    StdBinaryHeap,
}

/// The kinds of frontiers without decrease-key.
#[derive(Clone, Copy, Debug, PartialEq, Eq, Structural)]
pub enum PlainPriorityQueue {
    StdBinaryHeap,
    OrxDaryHeap,
}

impl PlainPriorityQueue {
    /// The kinds in their order.
    pub open spec fn all_levels() -> Seq<PlainPriorityQueue> {
        seq![PlainPriorityQueue::StdBinaryHeap, PlainPriorityQueue::OrxDaryHeap]
    }

    pub fn levels() -> (levels: Vec<Self>)
        ensures
            levels@ == Self::all_levels(),
    {
        let mut levels: Vec<Self> = Vec::new();
        levels.push(Self::StdBinaryHeap);
        levels.push(Self::OrxDaryHeap);
        assert(levels@ =~= Self::all_levels());
        levels
    }

    /// The levels that a line of answers chooses; the first level where
    /// it chooses none.
    pub fn level_from_cli(line: &Vec<u8>) -> (levels: Vec<Self>)
        ensures
            levels@ == choices(Self::all_levels(), 0, line@),
    {
        print_table_get_choices(&Self::levels(), 0, line)
    }
}

impl PriorityQueue {
    /// The levels of one kind: for the d-ary heap one level for each of the
    /// given arities.
    pub open spec fn of_kind(kind: PlainPriorityQueue, darys: Seq<Dary>) -> Seq<PriorityQueue> {
        match kind {
            PlainPriorityQueue::OrxDaryHeap => Seq::new(darys.len(), |k: int| PriorityQueue::OrxDaryHeap(darys[k])),
            PlainPriorityQueue::StdBinaryHeap => seq![PriorityQueue::StdBinaryHeap],
        }
    }

    /// The levels of the given kinds, kind by kind.
    pub open spec fn of_kinds(kinds: Seq<PlainPriorityQueue>, darys: Seq<Dary>) -> Seq<PriorityQueue> {
        flattened(Seq::new(kinds.len(), |k: int| Self::of_kind(kinds[k], darys)))
    }

    /// The levels of the given kinds and arities.
    pub fn expand(kinds: &Vec<PlainPriorityQueue>, darys: &Vec<Dary>) -> (levels: Vec<Self>)
        ensures
            levels@ == Self::of_kinds(kinds@, darys@),
    {
        let mut levels: Vec<Self> = Vec::new();
        let ghost parts = Seq::new(kinds@.len(), |k: int| Self::of_kind(kinds@[k], darys@));
        let mut i: usize = 0;
        while i < kinds.len()
            invariant
                i <= kinds@.len(),
                parts == Seq::new(kinds@.len(), |k: int| Self::of_kind(kinds@[k], darys@)),
                levels@ == flattened(parts.take(i as int)),
            decreases kinds@.len() - i,
        {
            let mut part: Vec<Self> = Vec::new();
            match kinds[i] {
                PlainPriorityQueue::OrxDaryHeap => {
                    let mut j: usize = 0;
                    while j < darys.len()
                        invariant
                            j <= darys@.len(),
                            part@.len() == j,
                            forall|k: int| 
                                0 <= k < j
                                    ==> #[trigger] part@[k] == PriorityQueue::OrxDaryHeap(darys@[k]),
                        decreases darys@.len() - j,
                    {
                        part.push(Self::OrxDaryHeap(darys[j]));
                        j = j + 1;
                    }
                },
                PlainPriorityQueue::StdBinaryHeap => {
                    part.push(Self::StdBinaryHeap);
                },
            }
            assert(part@ =~= Self::of_kind(kinds@[i as int], darys@));
            append_all(&mut levels, &part);
            proof {
                assert(parts.take(i + 1).drop_last() =~= parts.take(i as int));
            }
            i = i + 1;
        }
        assert(parts.take(kinds@.len() as int) =~= parts);
        levels
    }

    /// The levels that two lines of answers choose: the kinds of
    /// frontiers, and the arities of the d-ary heap.
    pub fn level_from_cli(kinds_line: &Vec<u8>, darys_line: &Vec<u8>) -> (levels: Vec<Self>)
        ensures
            levels@ == Self::of_kinds(
                choices(PlainPriorityQueue::all_levels(), 0, kinds_line@),
                choices(Dary::all_levels(), 0, darys_line@),
            ),
    {
        let kinds = PlainPriorityQueue::level_from_cli(kinds_line);
        let darys = Dary::level_from_cli(darys_line);
        Self::expand(&kinds, &darys)
    }


    /// The name of the level.
    pub open spec fn name_text(self) -> Seq<char> {
        match self {
            PriorityQueue::OrxDaryHeap(dary) => "OrxDaryHeap("@ + dary.name_text() + ")"@,
            PriorityQueue::StdBinaryHeap => "StdBinaryHeap"@,
        }
    }

    /// Appends the name of the level.
    pub fn append_name(&self, text: &mut String)
        ensures
            final(text)@ == old(text)@ + self.name_text(),
    {
        match self {
            Self::OrxDaryHeap(dary) => {
                text.append("OrxDaryHeap(");
                text.append(dary.name());
                text.append(")");
                assert(text@ =~= old(text)@ + self.name_text());
            },
            Self::StdBinaryHeap => {
                text.append("StdBinaryHeap");
            },
        }
    }

    /// What the cell of a table says of the level, under the name of its
    /// algorithm.
    pub open spec fn cell_text(self, algorithm_name: Seq<char>) -> Seq<char> {
        match self {
            PriorityQueue::OrxDaryHeap(dary) => algorithm_name + "\n* orx_priority_queue::"@ + dary.name_text()
                + "Heap (d="@ + decimal_text(dary.arity() as nat) + ")"@,
            PriorityQueue::StdBinaryHeap => algorithm_name + "\n* std::collections::BinaryHeap"@,
        }
    }

    pub fn to_cell_string(self, algorithm_name: &str) -> (cell: String)
        ensures
            cell@ == self.cell_text(algorithm_name@),
    {
        let mut cell = String::from_str(algorithm_name);
        match self {
            Self::OrxDaryHeap(x) => {
                cell.append("\n* orx_priority_queue::");
                cell.append(x.name());
                cell.append("Heap (d=");
                append_decimal(&mut cell, x.d() as u64);
                cell.append(")");
            },
            Self::StdBinaryHeap => {
                cell.append("\n* std::collections::BinaryHeap");
            },
        }
        assert(cell@ =~= self.cell_text(algorithm_name@));
        cell
    }
}

} // verus!
