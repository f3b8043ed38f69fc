//! The operation that shows how the program is used.
use crate::operations::operation::{lowered, same_letters, Operation};
use vstd::prelude::*;
use vstd::string::StringSliceAdditionalSpecFns;

verus! {

pub struct Help;

impl Operation for Help {
    fn name() -> (name: &'static str)
        ensures
            name@ == "help"@,
    {
        "help"
    }

    /// The command is the name but for the case of its letters.
    open spec fn asked_by(command: Seq<u8>) -> bool {
        lowered(command) == lowered("help".spec_bytes())
    }

    fn matches(command: &Vec<u8>) -> (matches: bool) {
        same_letters(Self::name().as_bytes(), command)
    }
}

} // verus!
