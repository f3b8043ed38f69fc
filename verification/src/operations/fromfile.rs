//! The operation that runs the experiment of a file.
use crate::operations::operation::{starts_with, Operation};
use vstd::prelude::*;
use vstd::string::StringSliceAdditionalSpecFns;

verus! {

pub struct FromFile;

impl Operation for FromFile {
    fn name() -> (name: &'static str)
        ensures
            name@ == "fromfile"@,
    {
        "fromfile"
    }

    /// The command begins with the name and goes on.
    open spec fn asked_by(command: Seq<u8>) -> bool {
        let name = "fromfile".spec_bytes();
        command.len() > name.len() && command.take(name.len() as int) == name
    }

    fn matches(command: &Vec<u8>) -> (matches: bool) {
        let name = Self::name().as_bytes();
        command.len() > name.len() && starts_with(command, name)
    }
}

impl FromFile {
    /// The path of the file in a command that asks for the operation:
    /// what follows the equals sign behind the name. `None` where no
    /// equals sign follows the name.
    pub open spec fn path_text(command: Seq<u8>) -> Option<Seq<u8>> {
        let name = "fromfile".spec_bytes();
        if command.len() > name.len() && command[name.len() as int] == 61 {
            Some(command.skip(name.len() as int + 1))
        } else {
            None
        }
    }

    pub fn path(command: &Vec<u8>) -> (path: Option<Vec<u8>>)
        ensures
            match path {
                Some(path) => Self::path_text(command@) == Some(path@),
                None => Self::path_text(command@) is None,
            },
    {
        let name = Self::name().as_bytes();
        if command.len() > name.len() && command[name.len()] == 61 {
            let mut path: Vec<u8> = Vec::new();
            let mut i: usize = name.len() + 1;
            while i < command.len()
                invariant
                    name@.len() + 1 <= i <= command@.len(),
                    path@ == command@.subrange(name@.len() as int + 1, i as int),
                decreases command@.len() - i,
            {
                path.push(command[i]);
                i = i + 1;
                assert(path@ =~= command@.subrange(name@.len() as int + 1, i as int));
            }
            assert(path@ =~= command@.skip(name@.len() as int + 1));
            Some(path)
        } else {
            None
        }
    }
}

} // verus!
