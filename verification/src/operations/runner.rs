//! Which operations a command asks for.
use crate::operations::fromfile::FromFile;
use crate::operations::help::Help;
use crate::operations::interactive::Interactive;
use crate::operations::operation::Operation;
use vstd::prelude::*;

verus! {

/// An operation that is to be run.
pub enum Run {
    Help,
    Interactive,
    /// Run the experiment of the file at the path; `None` where the
    /// command names no path.
    FromFile { path: Option<Vec<u8>> },
}

/// An operation that is to be run, with its path as text.
pub enum Wanted {
    Help,
    Interactive,
    FromFile { path: Option<Seq<u8>> },
}

impl Run {
    pub open spec fn wanted(self) -> Wanted {
        match self {
            Run::Help => Wanted::Help,
            Run::Interactive => Wanted::Interactive,
            Run::FromFile { path: Some(path) } => Wanted::FromFile { path: Some(path@) },
            Run::FromFile { path: None } => Wanted::FromFile { path: None },
        }
    }
}

/// The operations that a command asks for, in the order in which they
/// are to be run: the help, the interactive run, the run of a file.
pub open spec fn wanted_by(command: Seq<u8>) -> Seq<Wanted> {
    (if Help::asked_by(command) {
        seq![Wanted::Help]
    } else {
        Seq::empty()
    }) + (if Interactive::asked_by(command) {
        seq![Wanted::Interactive]
    } else {
        Seq::empty()
    }) + (if FromFile::asked_by(command) {
        seq![Wanted::FromFile { path: FromFile::path_text(command) }]
    } else {
        Seq::empty()
    })
}

/// The operations as they are wanted.
pub open spec fn all_wanted(runs: Seq<Run>) -> Seq<Wanted> {
    Seq::new(runs.len(), |i: int| runs[i].wanted())
}

/// Finds the operations that a command asks for.
pub fn run_command(command: &Vec<u8>) -> (runs: Vec<Run>)
    ensures
        all_wanted(runs@) == wanted_by(command@),
{
    let mut runs: Vec<Run> = Vec::new();
    if Help::matches(command) {
        runs.push(Run::Help);
    }
    if Interactive::matches(command) {
        runs.push(Run::Interactive);
    }
    if FromFile::matches(command) {
        runs.push(Run::FromFile { path: FromFile::path(command) });
    }
    assert(all_wanted(runs@) =~= wanted_by(command@));
    runs
}

/// The operations that the commands ask for, command by command.
pub fn run_commands(commands: &Vec<Vec<u8>>) -> (runs: Vec<Vec<Run>>)
    ensures
        runs@.len() == commands@.len(),
        forall|i: int| 0 <= i < runs@.len() ==> all_wanted(#[trigger] runs@[i]@) == wanted_by(commands@[i]@),
{
    let mut runs: Vec<Vec<Run>> = Vec::new();
    let mut i: usize = 0;
    while i < commands.len()
        invariant
            i <= commands@.len(),
            runs@.len() == i,
            forall|j: int| 0 <= j < i ==> all_wanted(#[trigger] runs@[j]@) == wanted_by(commands@[j]@),
        decreases commands@.len() - i,
    {
        runs.push(run_command(&commands[i]));
        i = i + 1;
    }
    runs
}

} // verus!
