//! The realizations of Dijkstra's algorithm.
use crate::experimentation::factors::algorithm::priority_queue::PriorityQueue;
use crate::experimentation::factors::algorithm::priority_queue_deckey::PriorityQueueDecKey;
use crate::utils::cli::{append_all, choices, flattened, print_table_get_choices};
use vstd::prelude::*;
use vstd::string::StringExecFns;

verus! {

#[derive(Clone, Copy, Debug, PartialEq, Eq, Structural)]
pub enum Dijkstra {
    PriorityQueue(PriorityQueue),
    PriorityQueueDecKey(PriorityQueueDecKey),
    Petgraph,
}

/// The kinds of realizations.
#[derive(Clone, Copy, Debug, PartialEq, Eq, Structural)]
pub enum PlainDijkstra {
    PriorityQueue,
    PriorityQueueDecKey,
    Petgraph,
}

impl PlainDijkstra {
    /// The kinds in their order.
    pub open spec fn all_levels() -> Seq<PlainDijkstra> {
        seq![PlainDijkstra::PriorityQueue, PlainDijkstra::PriorityQueueDecKey, PlainDijkstra::Petgraph]
    }

    pub fn levels() -> (levels: Vec<Self>)
        ensures
            levels@ == Self::all_levels(),
    {
        let mut levels: Vec<Self> = Vec::new();
        levels.push(Self::PriorityQueue);
        levels.push(Self::PriorityQueueDecKey);
        levels.push(Self::Petgraph);
        assert(levels@ =~= Self::all_levels());
        levels
    }

    /// The levels that a line of answers chooses; the first level where
    /// it chooses none.
    pub fn level_from_cli(line: &Vec<u8>) -> (levels: Vec<Self>)
        ensures
            levels@ == choices(Self::all_levels(), 0, line@),
    {
        print_table_get_choices(&Self::levels(), 0, line)
    }
}

impl Dijkstra {
    /// The levels of one kind, for the frontiers that were chosen.
    pub open spec fn of_kind(
        kind: PlainDijkstra,
        queues: Seq<PriorityQueue>,
        deckey_queues: Seq<PriorityQueueDecKey>,
    ) -> Seq<Dijkstra> {
        match kind {
            PlainDijkstra::PriorityQueue => Seq::new(queues.len(), |k: int| Dijkstra::PriorityQueue(queues[k])),
            PlainDijkstra::PriorityQueueDecKey => Seq::new(
                deckey_queues.len(),
                |k: int| Dijkstra::PriorityQueueDecKey(deckey_queues[k]),
            ),
            PlainDijkstra::Petgraph => seq![Dijkstra::Petgraph],
        }
    }

    /// The levels of the given kinds, kind by kind.
    pub open spec fn of_kinds(
        kinds: Seq<PlainDijkstra>,
        queues: Seq<PriorityQueue>,
        deckey_queues: Seq<PriorityQueueDecKey>,
    ) -> Seq<Dijkstra> {
        flattened(Seq::new(kinds.len(), |k: int| Self::of_kind(kinds[k], queues, deckey_queues)))
    }

    /// The levels of the given kinds with the given frontiers.
    pub fn level_from_cli(
        kinds: &Vec<PlainDijkstra>,
        queues: &Vec<PriorityQueue>,
        deckey_queues: &Vec<PriorityQueueDecKey>,
    ) -> (levels: Vec<Self>)
        ensures
            levels@ == Self::of_kinds(kinds@, queues@, deckey_queues@),
    {
        let mut levels: Vec<Self> = Vec::new();
        let ghost parts = Seq::new(kinds@.len(), |k: int| Self::of_kind(kinds@[k], queues@, deckey_queues@));
        let mut i: usize = 0;
        while i < kinds.len()
            invariant
                i <= kinds@.len(),
                parts == Seq::new(kinds@.len(), |k: int| Self::of_kind(kinds@[k], queues@, deckey_queues@)),
                levels@ == flattened(parts.take(i as int)),
            decreases kinds@.len() - i,
        {
            let mut part: Vec<Self> = Vec::new();
            match kinds[i] {
                PlainDijkstra::PriorityQueue => {
                    let mut j: usize = 0;
                    while j < queues.len()
                        invariant
                            j <= queues@.len(),
                            part@.len() == j,
                            forall|k: int| 
                                0 <= k < j
                                    ==> #[trigger] part@[k] == Dijkstra::PriorityQueue(queues@[k]),
                        decreases queues@.len() - j,
                    {
                        part.push(Self::PriorityQueue(queues[j]));
                        j = j + 1;
                    }
                },
                PlainDijkstra::PriorityQueueDecKey => {
                    let mut j: usize = 0;
                    while j < deckey_queues.len()
                        invariant
                            j <= deckey_queues@.len(),
                            part@.len() == j,
                            forall|k: int|
                                0 <= k < j ==> #[trigger] part@[k] == Dijkstra::PriorityQueueDecKey(
                                    deckey_queues@[k],
                                ),
                        decreases deckey_queues@.len() - j,
                    {
                        part.push(Self::PriorityQueueDecKey(deckey_queues[j]));
                        j = j + 1;
                    }
                },
                PlainDijkstra::Petgraph => {
                    part.push(Self::Petgraph);
                },
            }
            assert(part@ =~= Self::of_kind(kinds@[i as int], queues@, deckey_queues@));
            append_all(&mut levels, &part);
            proof {
                assert(parts.take(i + 1).drop_last() =~= parts.take(i as int));
            }
            i = i + 1;
        }
        assert(parts.take(kinds@.len() as int) =~= parts);
        levels
    }


    /// The name of the level.
    pub open spec fn name_text(self) -> Seq<char> {
        match self {
            Dijkstra::PriorityQueue(queue) => "PriorityQueue("@ + queue.name_text() + ")"@,
            Dijkstra::PriorityQueueDecKey(queue) => "PriorityQueueDecKey("@ + queue.name_text() + ")"@,
            Dijkstra::Petgraph => "Petgraph"@,
        }
    }

    /// Appends the name of the level.
    pub fn append_name(&self, text: &mut String)
        ensures
            final(text)@ == old(text)@ + self.name_text(),
    {
        match self {
            Self::PriorityQueue(queue) => {
                text.append("PriorityQueue(");
                queue.append_name(text);
                text.append(")");
                assert(text@ =~= old(text)@ + self.name_text());
            },
            Self::PriorityQueueDecKey(queue) => {
                text.append("PriorityQueueDecKey(");
                queue.append_name(text);
                text.append(")");
                assert(text@ =~= old(text)@ + self.name_text());
            },
            Self::Petgraph => {
                text.append("Petgraph");
            },
        }
    }

    /// What the cell of a table says of the level.
    pub open spec fn cell_text(self) -> Seq<char> {
        match self {
            Dijkstra::PriorityQueue(queue) => queue.cell_text("Dijkstra"@),
            Dijkstra::PriorityQueueDecKey(queue) => queue.cell_text("Dijkstra"@),
            Dijkstra::Petgraph => "Dijkstra\n* impl: petgraph::algo::dijkstra"@,
        }
    }

    pub fn to_cell_string(self) -> (cell: String)
        ensures
            cell@ == self.cell_text(),
    {
        match self {
            Self::PriorityQueue(x) => x.to_cell_string("Dijkstra"),
            Self::PriorityQueueDecKey(x) => x.to_cell_string("Dijkstra"),
            Self::Petgraph => String::from_str("Dijkstra\n* impl: petgraph::algo::dijkstra"),
        }
    }
}

} // verus!
