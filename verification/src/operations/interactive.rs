//! The operation that asks for an experiment at the prompts and runs it.
use crate::operations::operation::{lowered, same_letters, Operation};
use vstd::prelude::*;
use vstd::string::StringSliceAdditionalSpecFns;

verus! {

pub struct Interactive;

impl Operation for Interactive {
    fn name() -> (name: &'static str)
        ensures
            name@ == "interactive"@,
    {
        "interactive"
    }

    /// The command is the name but for the case of its letters.
    open spec fn asked_by(command: Seq<u8>) -> bool {
        lowered(command) == lowered("interactive".spec_bytes())
    }

    fn matches(command: &Vec<u8>) -> (matches: bool) {
        same_letters(Self::name().as_bytes(), command)
    }
}

} // verus!
