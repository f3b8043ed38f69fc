//! Frontiers with decrease-key.
use crate::experimentation::factors::algorithm::dary::Dary;
use crate::utils::cli::{append_all, choices, flattened, print_table_get_choices};
use crate::utils::text::{append_decimal, decimal_text};
use vstd::prelude::*;
use vstd::string::StringExecFns;

verus! {

#[derive(Clone, Copy, Debug, PartialEq, Eq, Structural)]
pub enum PriorityQueueDecKey {
    OrxDaryHeapOfIndices(Dary),
    OrxDaryHeapWithMap(Dary),
    PriorityQueuePriorityQueue,
}

/// The kinds of frontiers with decrease-key.
#[derive(Clone, Copy, Debug, PartialEq, Eq, Structural)]
pub enum PlainPriorityQueueDecKey {
    OrxDaryHeapOfIndices,
    OrxDaryHeapWithMap,
    PriorityQueuePriorityQueue,
}

impl PlainPriorityQueueDecKey {
    /// The kinds in their order.
    pub open spec fn all_levels() -> Seq<PlainPriorityQueueDecKey> {
        seq![
            PlainPriorityQueueDecKey::OrxDaryHeapOfIndices,
            PlainPriorityQueueDecKey::OrxDaryHeapWithMap,
            PlainPriorityQueueDecKey::PriorityQueuePriorityQueue,
        ]
    }

    pub fn levels() -> (levels: Vec<Self>)
        ensures
            levels@ == Self::all_levels(),
    {
        let mut levels: Vec<Self> = Vec::new();
        levels.push(Self::OrxDaryHeapOfIndices);
        levels.push(Self::OrxDaryHeapWithMap);
        levels.push(Self::PriorityQueuePriorityQueue);
        assert(levels@ =~= Self::all_levels());
        levels
    }

    /// The levels that a line of answers chooses; the first level where
    /// it chooses none.
    pub fn level_from_cli(line: &Vec<u8>) -> (levels: Vec<Self>)
        ensures
            levels@ == choices(Self::all_levels(), 0, line@),
    {
        print_table_get_choices(&Self::levels(), 0, line)
    }
}

impl PriorityQueueDecKey {
    /// The level of a kind at an arity. The queue with the index map has
    /// no arity.
    pub open spec fn of(kind: PlainPriorityQueueDecKey, dary: Dary) -> PriorityQueueDecKey {
        match kind {
            PlainPriorityQueueDecKey::OrxDaryHeapOfIndices => PriorityQueueDecKey::OrxDaryHeapOfIndices(dary),
            PlainPriorityQueueDecKey::OrxDaryHeapWithMap => PriorityQueueDecKey::OrxDaryHeapWithMap(dary),
            PlainPriorityQueueDecKey::PriorityQueuePriorityQueue => PriorityQueueDecKey::PriorityQueuePriorityQueue,
        }
    }

    /// The levels of one kind, one for each of the given arities.
    pub open spec fn of_kind(kind: PlainPriorityQueueDecKey, darys: Seq<Dary>) -> Seq<PriorityQueueDecKey> {
        Seq::new(darys.len(), |k: int| Self::of(kind, darys[k]))
    }

    /// The levels of the given kinds, kind by kind.
    pub open spec fn of_kinds(kinds: Seq<PlainPriorityQueueDecKey>, darys: Seq<Dary>) -> Seq<PriorityQueueDecKey> {
        flattened(Seq::new(kinds.len(), |k: int| Self::of_kind(kinds[k], darys)))
    }

    /// The levels of the given kinds and arities.
    pub fn expand(kinds: &Vec<PlainPriorityQueueDecKey>, darys: &Vec<Dary>) -> (levels: Vec<Self>)
        ensures
            levels@ == Self::of_kinds(kinds@, darys@),
    {
        let mut levels: Vec<Self> = Vec::new();
        let ghost parts = Seq::new(kinds@.len(), |k: int| Self::of_kind(kinds@[k], darys@));
        let mut i: usize = 0;
        while i < kinds.len()
            invariant
                i <= kinds@.len(),
                parts == Seq::new(kinds@.len(), |k: int| Self::of_kind(kinds@[k], darys@)),
                levels@ == flattened(parts.take(i as int)),
            decreases kinds@.len() - i,
        {
            let queue = kinds[i];
            let mut part: Vec<Self> = Vec::new();
            let mut j: usize = 0;
            while j < darys.len()
                invariant
                    j <= darys@.len(),
                    part@.len() == j,
                    forall|k: int| 0 <= k < j ==> #[trigger] part@[k] == Self::of(queue, darys@[k]),
                decreases darys@.len() - j,
            {
                let dary = darys[j];
                part.push(
                    match queue {
                        PlainPriorityQueueDecKey::OrxDaryHeapOfIndices => Self::OrxDaryHeapOfIndices(dary),
                        PlainPriorityQueueDecKey::OrxDaryHeapWithMap => Self::OrxDaryHeapWithMap(dary),
                        PlainPriorityQueueDecKey::PriorityQueuePriorityQueue => Self::PriorityQueuePriorityQueue,
                    },
                );
                j = j + 1;
            }
            assert(part@ =~= Self::of_kind(kinds@[i as int], darys@));
            append_all(&mut levels, &part);
            proof {
                assert(parts.take(i + 1).drop_last() =~= parts.take(i as int));
            }
            i = i + 1;
        }
        assert(parts.take(kinds@.len() as int) =~= parts);
        levels
    }

    /// The levels that two lines of answers choose: the kinds of
    /// frontiers and the arities. Every kind is combined with every arity.
    pub fn level_from_cli(kinds_line: &Vec<u8>, darys_line: &Vec<u8>) -> (levels: Vec<Self>)
        ensures
            levels@ == Self::of_kinds(
                choices(PlainPriorityQueueDecKey::all_levels(), 0, kinds_line@),
                choices(Dary::all_levels(), 0, darys_line@),
            ),
    {
        let plain = PlainPriorityQueueDecKey::level_from_cli(kinds_line);
        let dary = Dary::level_from_cli(darys_line);
        Self::expand(&plain, &dary)
    }


    /// The name of the level.
    pub open spec fn name_text(self) -> Seq<char> {
        match self {
            PriorityQueueDecKey::OrxDaryHeapOfIndices(dary) => "OrxDaryHeapOfIndices("@ + dary.name_text() + ")"@,
            PriorityQueueDecKey::OrxDaryHeapWithMap(dary) => "OrxDaryHeapWithMap("@ + dary.name_text() + ")"@,
            PriorityQueueDecKey::PriorityQueuePriorityQueue => "PriorityQueuePriorityQueue"@,
        }
    }

    /// Appends the name of the level.
    pub fn append_name(&self, text: &mut String)
        ensures
            final(text)@ == old(text)@ + self.name_text(),
    {
        match self {
            Self::OrxDaryHeapOfIndices(dary) => {
                text.append("OrxDaryHeapOfIndices(");
                text.append(dary.name());
                text.append(")");
                assert(text@ =~= old(text)@ + self.name_text());
            },
            Self::OrxDaryHeapWithMap(dary) => {
                text.append("OrxDaryHeapWithMap(");
                text.append(dary.name());
                text.append(")");
                assert(text@ =~= old(text)@ + self.name_text());
            },
            Self::PriorityQueuePriorityQueue => {
                text.append("PriorityQueuePriorityQueue");
            },
        }
    }

    /// What the cell of a table says of the level, under the name of its
    /// algorithm.
    pub open spec fn cell_text(self, algorithm_name: Seq<char>) -> Seq<char> {
        match self {
            PriorityQueueDecKey::OrxDaryHeapOfIndices(dary) => algorithm_name + "\n* orx_priority_queue::"@
                + dary.name_text() + "HeapOfIndices (d="@ + decimal_text(dary.arity() as nat) + ")"@,
            PriorityQueueDecKey::OrxDaryHeapWithMap(dary) => algorithm_name + "\n* orx_priority_queue::"@
                + dary.name_text() + "HeapWithMap (d="@ + decimal_text(dary.arity() as nat) + ")"@,
            PriorityQueueDecKey::PriorityQueuePriorityQueue => algorithm_name
                + "\n* priority_queue::PriorityQueue"@,
        }
    }

    pub fn to_cell_string(self, algorithm_name: &str) -> (cell: String)
        ensures
            cell@ == self.cell_text(algorithm_name@),
    {
        let mut cell = String::from_str(algorithm_name);
        match self {
            Self::OrxDaryHeapOfIndices(x) => {
                cell.append("\n* orx_priority_queue::");
                cell.append(x.name());
                cell.append("HeapOfIndices (d=");
                append_decimal(&mut cell, x.d() as u64);
                cell.append(")");
            },
            Self::OrxDaryHeapWithMap(x) => {
                cell.append("\n* orx_priority_queue::");
                cell.append(x.name());
                cell.append("HeapWithMap (d=");
                append_decimal(&mut cell, x.d() as u64);
                cell.append(")");
            },
            Self::PriorityQueuePriorityQueue => {
                cell.append("\n* priority_queue::PriorityQueue");
            },
        }
        assert(cell@ =~= self.cell_text(algorithm_name@));
        cell
    }
}

} // verus!
