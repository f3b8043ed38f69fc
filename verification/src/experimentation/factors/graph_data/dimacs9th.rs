//! Road networks of the ninth DIMACS implementation challenge, and the
//! text format in which they come.
//!
//! A line of such a text is made of fields that single blanks separate. The
//! line whose first field is `p` states the numbers of nodes and of edges in
//! its third and fourth field. A line whose first field is `a` is an edge:
//! tail, head and weight, where the nodes are numbered from one. All other
//! lines are comments.
use crate::graph::adjacency::Adjacency;
use crate::graph::sp_graph_builder::SpGraphBuilder;
use crate::utils::cli::{choices, print_table_get_choices};
use crate::utils::decimal::{field, find_field, number_u64, number_usize, parse_u64, parse_usize};
use crate::Weight;
use vstd::prelude::*;
use vstd::string::StringExecFns;

verus! {

#[derive(Clone, Copy, Debug, PartialEq, Eq, Structural)]
pub enum GraphDimacs9th {
    USARoaddNY,
    USARoaddBAY,
    USARoaddCOL,
    USARoaddFLA,
    USARoaddLKS,
    USARoaddW,
    USARoaddUSA,
}

impl Default for GraphDimacs9th {
    fn default() -> (level: Self)
        ensures
            level == GraphDimacs9th::USARoaddNY,
    {
        Self::USARoaddNY
    }
}

/// The byte that separates the fields of a line.
pub const BLANK: u8 = 32;

/// What is wrong with a text.
#[derive(Clone, Copy, Debug, PartialEq, Eq, Structural)]
pub enum DimacsFault {
    /// The line has fewer fields than its kind needs.
    MissingField,
    /// The number of nodes is no number, or none that fits.
    InvalidNumNodes,
    /// The number of edges is no number, or none that fits.
    InvalidNumEdges,
    InvalidTail,
    InvalidHead,
    InvalidWeight,
    /// An edge comes before the line that states the number of nodes, or
    /// there is no such line.
    MissingGraphMetaData,
    /// The tail or the head of an edge is zero: nodes are numbered from one.
    NodeIdZero,
    /// The builder takes no more nodes.
    NodeRefused,
    /// The builder does not take the edge.
    EdgeRefused,
}

/// The first thing that is wrong with a text, and the line where it is
/// found; the number of lines where a line is missing.
#[derive(Clone, Copy, Debug, PartialEq, Eq, Structural)]
pub struct DimacsError {
    pub line: usize,
    pub fault: DimacsFault,
}

/// What a line says.
pub enum DimacsLine {
    Problem { nodes: usize, edges: usize },
    Arc { tail: usize, head: usize, weight: Weight },
    Comment,
}

pub open spec fn is_letter(text: Option<Seq<u8>>, letter: u8) -> bool {
    text matches Some(text) && text.len() == 1 && text[0] == letter
}

/// The number in a field of a line, with the fault to report where the
/// field is no number.
pub open spec fn field_number(line: Seq<u8>, index: nat, fault: DimacsFault) -> Result<u64, DimacsFault> {
    match field(line, BLANK, index) {
        None => Err(DimacsFault::MissingField),
        Some(text) => match number_u64(text) {
            None => Err(fault),
            Some(value) => Ok(value),
        },
    }
}

/// As `field_number` for a number that has to be a `usize`.
pub open spec fn field_count(line: Seq<u8>, index: nat, fault: DimacsFault) -> Result<usize, DimacsFault> {
    match field(line, BLANK, index) {
        None => Err(DimacsFault::MissingField),
        Some(text) => match number_usize(text) {
            None => Err(fault),
            Some(value) => Ok(value),
        },
    }
}

/// What the line says, or what is wrong with it. The fields are read from
/// left to right, and the first fault is reported.
pub open spec fn line_meaning(line: Seq<u8>) -> Result<DimacsLine, DimacsFault> {
    if is_letter(field(line, BLANK, 0), 112) {
        match field_count(line, 2, DimacsFault::InvalidNumNodes) {
            Err(fault) => Err(fault),
            Ok(nodes) => match field_count(line, 3, DimacsFault::InvalidNumEdges) {
                Err(fault) => Err(fault),
                Ok(edges) => Ok(DimacsLine::Problem { nodes, edges }),
            },
        }
    } else if is_letter(field(line, BLANK, 0), 97) {
        match field_count(line, 1, DimacsFault::InvalidTail) {
            Err(fault) => Err(fault),
            Ok(tail) => match field_count(line, 2, DimacsFault::InvalidHead) {
                Err(fault) => Err(fault),
                Ok(head) => match field_number(line, 3, DimacsFault::InvalidWeight) {
                    Err(fault) => Err(fault),
                    Ok(weight) => Ok(DimacsLine::Arc { tail, head, weight }),
                },
            },
        }
    } else {
        Ok(DimacsLine::Comment)
    }
}

/// The graph of `nodes` nodes without edges.
pub open spec fn isolated(nodes: nat) -> Adjacency {
    Seq::new(nodes, |u: int| Seq::empty())
}

/// Whether a builder takes `nodes` nodes one after the other.
pub open spec fn takes_nodes<B: SpGraphBuilder>(nodes: nat) -> bool {
    forall|count: nat| count < nodes ==> B::takes_node(#[trigger] isolated(count))
}

/// What a builder holds after a line: `staged` is what it held before,
/// `None` before the line that states the number of nodes. That line
/// starts the graph anew.
pub open spec fn after_line<B: SpGraphBuilder>(
    staged: Option<Adjacency>,
    line: Seq<u8>,
) -> Result<Option<Adjacency>, DimacsFault> {
    match line_meaning(line) {
        Err(fault) => Err(fault),
        Ok(DimacsLine::Comment) => Ok(staged),
        Ok(DimacsLine::Problem { nodes, edges }) => if takes_nodes::<B>(nodes as nat) {
            Ok(Some(isolated(nodes as nat)))
        } else {
            Err(DimacsFault::NodeRefused)
        },
        Ok(DimacsLine::Arc { tail, head, weight }) => match staged {
            None => Err(DimacsFault::MissingGraphMetaData),
            Some(staged) => if tail == 0 || head == 0 {
                Err(DimacsFault::NodeIdZero)
            } else if !B::takes_edge(staged, (tail - 1) as usize, (head - 1) as usize) {
                Err(DimacsFault::EdgeRefused)
            } else {
                Ok(Some(B::with_edge(staged, (tail - 1) as usize, (head - 1) as usize, weight)))
            },
        },
    }
}

/// What a builder holds after the first `count` lines.
pub open spec fn after_lines<B: SpGraphBuilder>(
    lines: Seq<Seq<u8>>,
    count: nat,
) -> Result<Option<Adjacency>, DimacsError>
    decreases count,
{
    if count == 0 {
        Ok(None)
    } else {
        match after_lines::<B>(lines, (count - 1) as nat) {
            Err(error) => Err(error),
            Ok(staged) => match after_line::<B>(staged, lines[count - 1]) {
                Err(fault) => Err(DimacsError { line: (count - 1) as usize, fault }),
                Ok(staged) => Ok(staged),
            },
        }
    }
}

/// The graph that the text describes to a builder of type `B`, or the
/// first thing that is wrong with the text.
pub open spec fn described_graph<B: SpGraphBuilder>(lines: Seq<Seq<u8>>) -> Result<Adjacency, DimacsError> {
    match after_lines::<B>(lines, lines.len()) {
        Err(error) => Err(error),
        Ok(None) => Err(DimacsError { line: lines.len() as usize, fault: DimacsFault::MissingGraphMetaData }),
        Ok(Some(staged)) => Ok(staged),
    }
}

/// The lines as texts.
pub open spec fn texts(lines: Seq<Vec<u8>>) -> Seq<Seq<u8>> {
    Seq::new(lines.len(), |i: int| lines[i]@)
}

/// Reads the number in a field of the line.
fn read_number(line: &Vec<u8>, index: usize, fault: DimacsFault) -> (number: Result<u64, DimacsFault>)
    ensures
        number == field_number(line@, index as nat, fault),
{
    match find_field(line, BLANK, index) {
        None => Err(DimacsFault::MissingField),
        Some((begin, end)) => match parse_u64(line, begin, end) {
            None => Err(fault),
            Some(value) => Ok(value),
        },
    }
}

/// Reads the count in a field of the line.
fn read_count(line: &Vec<u8>, index: usize, fault: DimacsFault) -> (number: Result<usize, DimacsFault>)
    ensures
        number == field_count(line@, index as nat, fault),
{
    match find_field(line, BLANK, index) {
        None => Err(DimacsFault::MissingField),
        Some((begin, end)) => match parse_usize(line, begin, end) {
            None => Err(fault),
            Some(value) => Ok(value),
        },
    }
}

/// Whether the first field of the line is the one letter.
fn starts_with_letter(line: &Vec<u8>, letter: u8) -> (starts: bool)
    ensures
        starts == is_letter(field(line@, BLANK, 0), letter),
{
    match find_field(line, BLANK, 0) {
        None => false,
        Some((begin, end)) => {
            let starts = end - begin == 1 && line[begin] == letter;
            assert(line@.subrange(begin as int, end as int).len() == end - begin);
            starts
        },
    }
}

/// Reads what a line says.
pub fn read_line(line: &Vec<u8>) -> (meaning: Result<DimacsLine, DimacsFault>)
    ensures
        meaning == line_meaning(line@),
{
    if starts_with_letter(line, 112) {
        let nodes = match read_count(line, 2, DimacsFault::InvalidNumNodes) {
            Ok(nodes) => nodes,
            Err(fault) => {
                return Err(fault);
            },
        };
        let edges = match read_count(line, 3, DimacsFault::InvalidNumEdges) {
            Ok(edges) => edges,
            Err(fault) => {
                return Err(fault);
            },
        };
        Ok(DimacsLine::Problem { nodes, edges })
    } else if starts_with_letter(line, 97) {
        let tail = match read_count(line, 1, DimacsFault::InvalidTail) {
            Ok(tail) => tail,
            Err(fault) => {
                return Err(fault);
            },
        };
        let head = match read_count(line, 2, DimacsFault::InvalidHead) {
            Ok(head) => head,
            Err(fault) => {
                return Err(fault);
            },
        };
        let weight = match read_number(line, 3, DimacsFault::InvalidWeight) {
            Ok(weight) => weight,
            Err(fault) => {
                return Err(fault);
            },
        };
        Ok(DimacsLine::Arc { tail, head, weight })
    } else {
        Ok(DimacsLine::Comment)
    }
}

/// A builder with `nodes` nodes and no edges, `None` where the builder
/// does not take that many nodes.
pub fn with_nodes<B: SpGraphBuilder>(nodes: usize, edges_capacity: Option<usize>) -> (builder: Option<B>)
    ensures
        match builder {
            Some(builder) => takes_nodes::<B>(nodes as nat) && builder.staged() == isolated(nodes as nat),
            None => !takes_nodes::<B>(nodes as nat),
        },
{
    let mut builder = B::new(Some(nodes), edges_capacity);
    assert(builder.staged() =~= isolated(0));
    let mut i: usize = 0;
    while i < nodes
        invariant
            i <= nodes,
            builder.staged() == isolated(i as nat),
            forall|count: nat| count < i ==> B::takes_node(#[trigger] isolated(count)),
        decreases nodes - i,
    {
        if !builder.can_add_node() {
            return None;
        }
        builder.add_node(i, None);
        i = i + 1;
        assert(builder.staged() =~= isolated(i as nat));
    }
    Some(builder)
}

impl GraphDimacs9th {
    /// The levels in their order.
    pub open spec fn all_levels() -> Seq<GraphDimacs9th> {
        seq![
            GraphDimacs9th::USARoaddNY,
            GraphDimacs9th::USARoaddBAY,
            GraphDimacs9th::USARoaddCOL,
            GraphDimacs9th::USARoaddFLA,
            GraphDimacs9th::USARoaddLKS,
            GraphDimacs9th::USARoaddW,
            GraphDimacs9th::USARoaddUSA,
        ]
    }

    pub fn levels() -> (levels: Vec<Self>)
        ensures
            levels@ == Self::all_levels(),
    {
        let mut levels: Vec<Self> = Vec::new();
        levels.push(Self::USARoaddNY);
        levels.push(Self::USARoaddBAY);
        levels.push(Self::USARoaddCOL);
        levels.push(Self::USARoaddFLA);
        levels.push(Self::USARoaddLKS);
        levels.push(Self::USARoaddW);
        levels.push(Self::USARoaddUSA);
        assert(levels@ =~= Self::all_levels());
        levels
    }

    /// The levels that a line of answers chooses; the first level where
    /// it chooses none.
    pub fn level_from_cli(line: &Vec<u8>) -> (levels: Vec<Self>)
        ensures
            levels@ == choices(Self::all_levels(), 0, line@),
    {
        print_table_get_choices(&Self::levels(), 0, line)
    }

    /// The name of the level.
    pub open spec fn name_text(self) -> Seq<char> {
        match self {
            GraphDimacs9th::USARoaddNY => "USARoaddNY"@,
            GraphDimacs9th::USARoaddBAY => "USARoaddBAY"@,
            GraphDimacs9th::USARoaddCOL => "USARoaddCOL"@,
            GraphDimacs9th::USARoaddFLA => "USARoaddFLA"@,
            GraphDimacs9th::USARoaddLKS => "USARoaddLKS"@,
            GraphDimacs9th::USARoaddW => "USARoaddW"@,
            GraphDimacs9th::USARoaddUSA => "USARoaddUSA"@,
        }
    }

    pub fn name(&self) -> (name: &'static str)
        ensures
            name@ == self.name_text(),
    {
        match self {
            Self::USARoaddNY => "USARoaddNY",
            Self::USARoaddBAY => "USARoaddBAY",
            Self::USARoaddCOL => "USARoaddCOL",
            Self::USARoaddFLA => "USARoaddFLA",
            Self::USARoaddLKS => "USARoaddLKS",
            Self::USARoaddW => "USARoaddW",
            Self::USARoaddUSA => "USARoaddUSA",
        }
    }

    /// What the cell of a table says of the level.
    pub open spec fn cell_text(self) -> Seq<char> {
        "Dimacs9th:\n* name: "@ + self.name_text()
    }

    pub fn to_cell_string(self) -> (cell: String)
        ensures
            cell@ == self.cell_text(),
    {
        let mut cell = String::from_str("Dimacs9th:\n* name: ");
        cell.append(self.name());
        cell
    }

    /// The name of the file of the network, without its endings.
    pub open spec fn filename_text(self) -> Seq<char> {
        match self {
            GraphDimacs9th::USARoaddNY => "USA-road-d.NY"@,
            GraphDimacs9th::USARoaddBAY => "USA-road-d.BAY"@,
            GraphDimacs9th::USARoaddCOL => "USA-road-d.COL"@,
            GraphDimacs9th::USARoaddFLA => "USA-road-d.FLA"@,
            GraphDimacs9th::USARoaddLKS => "USA-road-d.LKS"@,
            GraphDimacs9th::USARoaddW => "USA-road-d.W"@,
            GraphDimacs9th::USARoaddUSA => "USA-road-d.USA"@,
        }
    }

    pub fn filename(&self) -> (name: &'static str)
        ensures
            name@ == self.filename_text(),
    {
        match self {
            Self::USARoaddNY => "USA-road-d.NY",
            Self::USARoaddBAY => "USA-road-d.BAY",
            Self::USARoaddCOL => "USA-road-d.COL",
            Self::USARoaddFLA => "USA-road-d.FLA",
            Self::USARoaddLKS => "USA-road-d.LKS",
            Self::USARoaddW => "USA-road-d.W",
            Self::USARoaddUSA => "USA-road-d.USA",
        }
    }

    /// Builds the graph that the lines of a text describe.
    pub fn create_graph_builder<B: SpGraphBuilder>(
        &self,
        lines: &Vec<Vec<u8>>,
    ) -> (result: Result<B, DimacsError>)
        ensures
            match result {
                Ok(builder) => described_graph::<B>(texts(lines@)) == Ok::<Adjacency, DimacsError>(builder.staged()),
                Err(error) => described_graph::<B>(texts(lines@)) == Err::<Adjacency, DimacsError>(error),
            },
    {
        let mut maybe_g: Option<B> = None;
        let mut i: usize = 0;
        while i < lines.len()
            invariant
                i <= lines@.len(),
                after_lines::<B>(texts(lines@), i as nat) == Ok::<Option<Adjacency>, DimacsError>(
                    match maybe_g {
                        Some(builder) => Some(builder.staged()),
                        None => None,
                    },
                ),
            decreases lines@.len() - i,
        {
            let line = &lines[i];
            assert(texts(lines@)[i as int] == line@);
            proof {
                reveal_with_fuel(after_lines, 2);
                lemma_fault_ends_reading::<B>(texts(lines@), (i + 1) as nat, lines@.len());
            }
            match read_line(line) {
                Err(fault) => {
                    return Err(DimacsError { line: i, fault });
                },
                Ok(DimacsLine::Comment) => {},
                Ok(DimacsLine::Problem { nodes, edges }) => {
                    match with_nodes::<B>(nodes, Some(edges)) {
                        Some(builder) => {
                            maybe_g = Some(builder);
                        },
                        None => {
                            return Err(DimacsError { line: i, fault: DimacsFault::NodeRefused });
                        },
                    }
                },
                Ok(DimacsLine::Arc { tail, head, weight }) => {
                    let mut g = match maybe_g {
                        Some(g) => g,
                        None => {
                            return Err(DimacsError { line: i, fault: DimacsFault::MissingGraphMetaData });
                        },
                    };
                    if tail == 0 || head == 0 {
                        return Err(DimacsError { line: i, fault: DimacsFault::NodeIdZero });
                    }
                    if !g.can_add_edge(tail - 1, head - 1) {
                        return Err(DimacsError { line: i, fault: DimacsFault::EdgeRefused });
                    }
                    g.add_edge(tail - 1, head - 1, weight);
                    maybe_g = Some(g);
                },
            }
            i = i + 1;
        }
        match maybe_g {
            Some(builder) => Ok(builder),
            None => Err(DimacsError { line: i, fault: DimacsFault::MissingGraphMetaData }),
        }
    }
}

/// What is wrong after some lines is wrong after more lines.
pub proof fn lemma_fault_ends_reading<B: SpGraphBuilder>(lines: Seq<Seq<u8>>, count: nat, more: nat)
    requires
        count <= more,
    ensures
        after_lines::<B>(lines, count) is Err ==> after_lines::<B>(lines, more) == after_lines::<B>(lines, count),
    decreases more,
{
    if count < more {
        lemma_fault_ends_reading::<B>(lines, count, (more - 1) as nat);
    }
}

} // verus!
