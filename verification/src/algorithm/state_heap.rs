//! A binary heap of search states on a `Vec`: the state that comes out is
//! one of least cost.
use crate::Weight;
use vstd::multiset::Multiset;
use vstd::prelude::*;
use vstd::seq_lib::{to_multiset_contains, to_multiset_update};

verus! {

/// A node of the frontier with the cost at which it was reached.
#[derive(Copy, Clone, Debug, PartialEq, Eq, Structural)]
pub struct State {
    pub cost: Weight,
    pub position: usize,
}

/// `first` leaves the heap no later than `second`: it costs less or, at
/// equal cost, its position is not the smaller one.
pub open spec fn precedes(first: State, second: State) -> bool {
    first.cost < second.cost || (first.cost == second.cost && first.position >= second.position)
}

impl State {
    /// Whether this state leaves a heap no later than `other`.
    pub fn precedes(&self, other: &State) -> (result: bool)
        ensures
            result == precedes(*self, *other),
    {
        self.cost < other.cost || (self.cost == other.cost && self.position >= other.position)
    }
}

pub open spec fn parent(i: int) -> int {
    (i - 1) / 2
}

/// Every item but the root is preceded by its parent.
pub open spec fn heap_ordered(items: Seq<State>) -> bool {
    forall|i: int| 1 <= i < items.len() ==> precedes(items[parent(i)], #[trigger] items[i])
}

/// As `heap_ordered` but for the item at `hole`, which may precede its
/// parent; the children of `hole` are preceded by its parent.
pub open spec fn ordered_but_above(items: Seq<State>, hole: int) -> bool {
    &&& forall|i: int| 1 <= i < items.len() && i != hole ==> precedes(items[parent(i)], #[trigger] items[i])
    &&& forall|i: int|
        1 <= i < items.len() && parent(i) == hole && hole >= 1 ==> precedes(
            items[parent(hole)],
            #[trigger] items[i],
        )
}

/// As `heap_ordered` but for the item at `hole`, which its children may
/// precede; the children of `hole` are preceded by its parent.
pub open spec fn ordered_but_below(items: Seq<State>, hole: int) -> bool {
    &&& forall|i: int|
        1 <= i < items.len() && parent(i) != hole ==> precedes(items[parent(i)], #[trigger] items[i])
    &&& forall|i: int|
        1 <= i < items.len() && parent(i) == hole && hole >= 1 ==> precedes(
            items[parent(hole)],
            #[trigger] items[i],
        )
}

/// The root of an ordered heap precedes every item.
pub proof fn lemma_root_precedes(items: Seq<State>, i: int)
    requires
        heap_ordered(items),
        0 <= i < items.len(),
    ensures
        precedes(items[0], items[i]),
    decreases i,
{
    if i > 0 {
        lemma_root_precedes(items, parent(i));
        assert(precedes(items[parent(i)], items[i]));
    }
}

/// The sequence with the items at `i` and `j` exchanged.
pub open spec fn exchanged(items: Seq<State>, i: int, j: int) -> Seq<State> {
    items.update(i, items[j]).update(j, items[i])
}

pub proof fn lemma_exchanged_same_items(items: Seq<State>, i: int, j: int)
    requires
        0 <= i < items.len(),
        0 <= j < items.len(),
    ensures
        exchanged(items, i, j).to_multiset() == items.to_multiset(),
{
    let half = items.update(i, items[j]);
    to_multiset_update(items, i, items[j]);
    to_multiset_update(half, j, items[i]);
    to_multiset_contains(items, items[i]);
    to_multiset_contains(items, items[j]);
    assert(items.to_multiset().count(items[i]) > 0);
    assert(items.to_multiset().count(items[j]) > 0);
    if i == j {
        assert(exchanged(items, i, j) =~= items);
    } else {
        assert(half[j] == items[j]);
        assert(exchanged(items, i, j).to_multiset() =~= items.to_multiset());
    }
}

/// A heap of states. It takes the place of a heap of the standard library
/// whose items are ordered by falling cost.
pub struct StateHeap {
    items: Vec<State>,
}

/// `Vec::capacity`: the number of items the vector has room for, which is
/// at least the number it holds.
#[verifier::external_body]
fn vec_capacity(items: &Vec<State>) -> (capacity: usize)
    ensures
        capacity >= items@.len(),
{
    items.capacity()
}

impl StateHeap {
    #[verifier::type_invariant]
    spec fn well_formed(&self) -> bool {
        heap_ordered(self.items@)
    }

    /// The states in the heap.
    pub closed spec fn view(&self) -> Multiset<State> {
        self.items@.to_multiset()
    }

    pub fn new() -> (heap: Self)
        ensures
            heap@ == Multiset::<State>::empty(),
    {
        let heap = Self { items: Vec::new() };
        assert(heap.items@.to_multiset() =~= Multiset::<State>::empty()) by {
            heap.items@.to_multiset_ensures();
        }
        heap
    }

    pub fn len(&self) -> (len: usize)
        ensures
            len == self@.len(),
    {
        proof {
            self.items@.to_multiset_ensures();
        }
        self.items.len()
    }

    /// The number of states that the heap has room for.
    pub fn capacity(&self) -> (capacity: usize)
        ensures
            capacity >= self@.len(),
    {
        proof {
            self.items@.to_multiset_ensures();
        }
        vec_capacity(&self.items)
    }

    pub fn clear(&mut self)
        ensures
            final(self)@ == Multiset::<State>::empty(),
    {
        let mut items = Vec::new();
        core::mem::swap(&mut items, &mut self.items);
        items.clear();
        proof {
            items@.to_multiset_ensures();
            assert(items@.to_multiset() =~= Multiset::<State>::empty());
        }
        self.items = items;
    }

    pub fn push(&mut self, state: State)
        ensures
            final(self)@ == old(self)@.insert(state),
    {
        proof {
            use_type_invariant(&*self);
            old(self).items@.to_multiset_ensures();
        }
        let mut items = Vec::new();
        core::mem::swap(&mut items, &mut self.items);
        items.push(state);
        let ghost pushed = items@;
        let mut i: usize = items.len() - 1;
        while i > 0 && !items[(i - 1) / 2].precedes(&items[i])
            invariant
                0 <= i < items@.len(),
                items@.len() == pushed.len(),
                items@.to_multiset() == pushed.to_multiset(),
                ordered_but_above(items@, i as int),
            decreases i,
        {
            let up: usize = (i - 1) / 2;
            let ghost before = items@;
            let child = items[i];
            let above = items[up];
            items.set(i, above);
            items.set(up, child);
            proof {
                assert(items@ =~= exchanged(before, i as int, up as int));
                lemma_exchanged_same_items(before, i as int, up as int);
                assert forall|j: int| 1 <= j < items@.len() && j != up implies precedes(
                    items@[parent(j)],
                    #[trigger] items@[j],
                ) by {
                    if j == i {
                    } else if parent(j) == i {
                        assert(precedes(before[parent(i as int)], before[j]));
                    } else if parent(j) == up {
                        assert(precedes(before[parent(j)], before[j]));
                    } else {
                        assert(precedes(before[parent(j)], before[j]));
                    }
                }
                assert forall|j: int|
                    1 <= j < items@.len() && parent(j) == up && up >= 1 implies precedes(
                    items@[parent(up as int)],
                    #[trigger] items@[j],
                ) by {
                    assert(precedes(before[parent(up as int)], before[up as int]));
                    if j != i {
                        assert(precedes(before[parent(j)], before[j]));
                    }
                }
            }
            i = up;
        }
        assert(heap_ordered(items@));
        self.items = items;
    }

    /// Takes out a state that precedes all others, `None` from an empty heap.
    pub fn pop(&mut self) -> (popped: Option<State>)
        ensures
            match popped {
                Some(state) => {
                    &&& old(self)@.count(state) > 0
                    &&& final(self)@ == old(self)@.remove(state)
                    &&& forall|other: State| old(self)@.count(other) > 0 ==> precedes(state, other)
                },
                None => old(self)@.len() == 0 && final(self)@ == old(self)@,
            },
    {
        proof {
            use_type_invariant(&*self);
            old(self).items@.to_multiset_ensures();
        }
        let mut items = Vec::new();
        core::mem::swap(&mut items, &mut self.items);
        let ghost full = items@;
        let last = match items.pop() {
            Some(last) => last,
            None => {
                self.items = items;
                return None;
            },
        };
        proof {
            assert forall|other: State| full.to_multiset().count(other) > 0 implies precedes(full[0], other) by {
                to_multiset_contains(full, other);
                let j = choose|j: int| 0 <= j < full.len() && full[j] == other;
                lemma_root_precedes(full, j);
            }
            to_multiset_contains(full, full[0]);
        }
        if items.len() == 0 {
            proof {
                items@.to_multiset_ensures();
                assert(full =~= items@.push(last));
                assert(items@.to_multiset() =~= full.to_multiset().remove(last));
            }
            self.items = items;
            return Some(last);
        }
        let top = items[0];
        items.set(0, last);
        let ghost start = items@;
        proof {
            vstd::seq_lib::to_multiset_remove(full, full.len() - 1);
            assert(full.remove(full.len() - 1) =~= full.drop_last());
            to_multiset_update(full.drop_last(), 0, last);
            assert(start =~= full.drop_last().update(0, last));
            assert(start.to_multiset() =~= full.to_multiset().remove(top));
            assert forall|j: int| 1 <= j < start.len() && parent(j) != 0 implies precedes(
                start[parent(j)],
                #[trigger] start[j],
            ) by {
                assert(precedes(full[parent(j)], full[j]));
            }
        }
        let len = items.len();
        let mut i: usize = 0;
        while i < len / 2
            invariant
                len == items@.len(),
                len == start.len(),
                0 <= i < len,
                items@.to_multiset() == start.to_multiset(),
                ordered_but_below(items@, i as int),
            ensures
                heap_ordered(items@),
                items@.to_multiset() == start.to_multiset(),
            decreases len - i,
        {
            let left: usize = 2 * i + 1;
            let right: usize = left + 1;
            let best: usize = if right < len && items[right].precedes(&items[left]) {
                right
            } else {
                left
            };
            if items[i].precedes(&items[best]) {
                proof {
                    assert forall|j: int| 1 <= j < items@.len() implies precedes(
                        items@[parent(j)],
                        #[trigger] items@[j],
                    ) by {
                        if parent(j) == i {
                            assert(j == left || j == right);
                        }
                    }
                }
                break;
            }
            let ghost before = items@;
            let down = items[i];
            let child = items[best];
            items.set(i, child);
            items.set(best, down);
            proof {
                assert(items@ =~= exchanged(before, i as int, best as int));
                lemma_exchanged_same_items(before, i as int, best as int);
                assert forall|j: int| 1 <= j < items@.len() && parent(j) != best implies precedes(
                    items@[parent(j)],
                    #[trigger] items@[j],
                ) by {
                    if parent(j) == i {
                        assert(j == left || j == right);
                    } else if j == i {
                        assert(precedes(before[parent(i as int)], before[best as int]));
                    } else {
                        assert(precedes(before[parent(j)], before[j]));
                    }
                }
                assert forall|j: int|
                    1 <= j < items@.len() && parent(j) == best && best >= 1 implies precedes(
                    items@[parent(best as int)],
                    #[trigger] items@[j],
                ) by {
                    assert(precedes(before[parent(j)], before[j]));
                }
            }
            i = best;
        }
        proof {
            assert forall|j: int| 1 <= j < items@.len() implies
                precedes(items@[parent(j)], #[trigger] items@[j]) by {
                if parent(j) == i {
                }
            }
        }
        self.items = items;
        Some(top)
    }
}

} // verus!
