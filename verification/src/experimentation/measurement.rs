//! What an experiment measures.
use crate::utils::cli::{chosen_one, print_table_get_choice};
use crate::utils::text::texts;
use vstd::prelude::*;
use vstd::string::StringExecFns;

verus! {

#[derive(Clone, Copy, Debug, PartialEq, Eq, Structural)]
pub enum Measurement {
    Time,
    Memory,
    Validation,
}

impl Measurement {
    /// The levels in their order.
    pub open spec fn all_levels() -> Seq<Measurement> {
        seq![Measurement::Time, Measurement::Memory, Measurement::Validation]
    }

    pub fn levels() -> (levels: Vec<Self>)
        ensures
            levels@ == Self::all_levels(),
    {
        let mut levels: Vec<Self> = Vec::new();
        levels.push(Self::Time);
        levels.push(Self::Memory);
        levels.push(Self::Validation);
        assert(levels@ =~= Self::all_levels());
        levels
    }

    /// The heads of the columns of what is measured.
    pub open spec fn column_texts(self) -> Seq<Seq<char>> {
        match self {
            Measurement::Time => seq!["Total Elapsed Seconds"@, "Elapsed Seconds per Problem"@],
            Measurement::Memory => seq![
                "Average Heap Size"@,
                "Maximum Number of Items"@,
                "Average Heap Capacity"@,
                "Maximum Heap Capacity"@,
            ],
            Measurement::Validation => seq!["Number of Wrong Results"@, "First Wrong Source-Sink Pair"@],
        }
    }

    pub fn result_columns(&self) -> (columns: Vec<String>)
        ensures
            texts(columns@) == self.column_texts(),
    {
        let mut columns: Vec<String> = Vec::new();
        match self {
            Self::Time => {
                columns.push(String::from_str("Total Elapsed Seconds"));
                columns.push(String::from_str("Elapsed Seconds per Problem"));
            },
            Self::Memory => {
                columns.push(String::from_str("Average Heap Size"));
                columns.push(String::from_str("Maximum Number of Items"));
                columns.push(String::from_str("Average Heap Capacity"));
                columns.push(String::from_str("Maximum Heap Capacity"));
            },
            Self::Validation => {
                columns.push(String::from_str("Number of Wrong Results"));
                columns.push(String::from_str("First Wrong Source-Sink Pair"));
            },
        }
        assert(texts(columns@) =~= self.column_texts());
        columns
    }

    /// The level that a line with one answer chooses; the validation
    /// where it chooses none.
    pub fn query_from_cli(line: &Vec<u8>) -> (level: Self)
        ensures
            level == Self::all_levels()[chosen_one(line@, 2, 0, 2) as int],
    {
        print_table_get_choice(&Self::levels(), 2, line)
    }
}

} // verus!
