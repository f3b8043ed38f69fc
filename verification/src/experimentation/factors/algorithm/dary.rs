//! The number of children of a node of a d-ary heap.
use crate::utils::cli::{choices, print_table_get_choices};
use vstd::prelude::*;

verus! {

#[derive(Clone, Copy, Debug, PartialEq, Eq, Structural)]
pub enum Dary {
    Binary,
    Quaternary,
    Octonary,
    D16,
    D32,
    D64,
}

/// Whether a d-ary heap with `d` children per node is among the levels.
pub open spec fn is_arity(d: usize) -> bool {
    d == 2 || d == 4 || d == 8 || d == 16 || d == 32 || d == 64
}

impl Dary {
    /// The levels in their order.
    pub open spec fn all_levels() -> Seq<Dary> {
        seq![Dary::Binary, Dary::Quaternary, Dary::Octonary, Dary::D16, Dary::D32, Dary::D64]
    }

    pub fn levels() -> (levels: Vec<Self>)
        ensures
            levels@ == Self::all_levels(),
    {
        let mut levels: Vec<Self> = Vec::new();
        levels.push(Self::Binary);
        levels.push(Self::Quaternary);
        levels.push(Self::Octonary);
        levels.push(Self::D16);
        levels.push(Self::D32);
        levels.push(Self::D64);
        assert(levels@ =~= Self::all_levels());
        levels
    }

    /// The levels that a line of answers chooses; the first level where
    /// it chooses none.
    pub fn level_from_cli(line: &Vec<u8>) -> (levels: Vec<Self>)
        ensures
            levels@ == choices(Self::all_levels(), 0, line@),
    {
        print_table_get_choices(&Self::levels(), 0, line)
    }

    /// The name of the level.
    pub open spec fn name_text(self) -> Seq<char> {
        match self {
            Dary::Binary => "Binary"@,
            Dary::Quaternary => "Quaternary"@,
            Dary::Octonary => "Octonary"@,
            Dary::D16 => "D16"@,
            Dary::D32 => "D32"@,
            Dary::D64 => "D64"@,
        }
    }

    pub fn name(&self) -> (name: &'static str)
        ensures
            name@ == self.name_text(),
    {
        match self {
            Self::Binary => "Binary",
            Self::Quaternary => "Quaternary",
            Self::Octonary => "Octonary",
            Self::D16 => "D16",
            Self::D32 => "D32",
            Self::D64 => "D64",
        }
    }

    /// The number of children per node.
    pub open spec fn arity(self) -> usize {
        match self {
            Dary::Binary => 2,
            Dary::Quaternary => 4,
            Dary::Octonary => 8,
            Dary::D16 => 16,
            Dary::D32 => 32,
            Dary::D64 => 64,
        }
    }

    pub fn d(&self) -> (d: usize)
        ensures
            d == self.arity(),
    {
        match self {
            Self::Binary => 2,
            Self::Quaternary => 4,
            Self::Octonary => 8,
            Self::D16 => 16,
            Self::D32 => 32,
            Self::D64 => 64,
        }
    }

    /// The level with `d` children per node, if there is one.
    pub fn with_d(d: usize) -> (level: Option<Self>)
        ensures
            level is Some <==> is_arity(d),
            level matches Some(dary) ==> dary.arity() == d,
    {
        if d == 2 {
            Some(Self::Binary)
        } else if d == 4 {
            Some(Self::Quaternary)
        } else if d == 8 {
            Some(Self::Octonary)
        } else if d == 16 {
            Some(Self::D16)
        } else if d == 32 {
            Some(Self::D32)
        } else if d == 64 {
            Some(Self::D64)
        } else {
            None
        }
    }
}

} // verus!
