//! The scratch data that an algorithm keeps from one query to the next.
use crate::Weight;
use vstd::prelude::*;

verus! {

/// Puts `neutral` into the first `count` places of `values`, and makes
/// `values` that long where it is shorter. What lies behind stays as it is.
pub fn reset<T: Copy>(values: &mut Vec<T>, count: usize, neutral: T)
    ensures
        final(values)@.len() == if old(values)@.len() < count {
            count as nat
        } else {
            old(values)@.len()
        },
        forall|i: int| 0 <= i < count ==> #[trigger] final(values)@[i] == neutral,
        forall|i: int| count <= i < old(values)@.len() ==> #[trigger] final(values)@[i] == old(values)@[i],
{
    let len = values.len();
    let mut i: usize = 0;
    while i < len && i < count
        invariant
            len == values@.len(),
            len == old(values)@.len(),
            i <= len,
            i <= count,
            forall|j: int| 0 <= j < i ==> #[trigger] values@[j] == neutral,
            forall|j: int| i <= j < len ==> #[trigger] values@[j] == old(values)@[j],
        decreases len - i,
    {
        values.set(i, neutral);
        i = i + 1;
    }
    while i < count
        invariant
            len == old(values)@.len(),
            i <= count,
            len <= count ==> values@.len() == i,
            len > count ==> values@.len() == len && i == count,
            forall|j: int| 0 <= j < i ==> #[trigger] values@[j] == neutral,
            forall|j: int| count <= j < len ==> #[trigger] values@[j] == old(values)@[j],
        decreases count - i,
    {
        values.push(neutral);
        i = i + 1;
    }
}

/// The first `nodes` stored distances as tentative distances.
pub open spec fn labels(distances: Seq<Weight>, nodes: nat) -> Seq<int> {
    Seq::new(nodes, |v: int| distances[v] as int)
}

} // verus!
