//! The order of the search states: a state is greater than another if it
//! costs less or, at equal cost, has the greater position.
use crate::algorithm::state_heap::State;
use std::cmp::Ordering;
use vstd::prelude::*;
use vstd::std_specs::cmp::PartialOrdSpecImpl;

verus! {

impl PartialOrd for State {
    fn partial_cmp(&self, other: &Self) -> (order: Option<Ordering>) {
        if self.cost > other.cost {
            Some(Ordering::Less)
        } else if self.cost < other.cost {
            Some(Ordering::Greater)
        } else if self.position < other.position {
            Some(Ordering::Less)
        } else if self.position > other.position {
            Some(Ordering::Greater)
        } else {
            Some(Ordering::Equal)
        }
    }
}

impl PartialOrdSpecImpl for State {
    open spec fn obeys_partial_cmp_spec() -> bool {
        true
    }

    open spec fn partial_cmp_spec(&self, other: &Self) -> Option<Ordering> {
        if self.cost > other.cost {
            Some(Ordering::Less)
        } else if self.cost < other.cost {
            Some(Ordering::Greater)
        } else if self.position < other.position {
            Some(Ordering::Less)
        } else if self.position > other.position {
            Some(Ordering::Greater)
        } else {
            Some(Ordering::Equal)
        }
    }
}

} // verus!
