use bench_shortest_path::algorithm::orx_pqdeckey_dijkstra::{
    DecKeyQueue, OrxDaryHeapOfIndices, OrxDaryHeapWithMap,
};
use bench_shortest_path::algorithm::priority_queue_priority_queue::ReverseCostQueue;
use bench_shortest_path::algorithm::scratch::reset;
use bench_shortest_path::algorithm::state_heap::{State, StateHeap};
use bench_shortest_path::experimentation::factors::algorithm::dary::Dary;
use bench_shortest_path::Weight;

#[test]
fn state_precedes_by_cost_then_by_greater_position() {
    let cheap = State { cost: 1, position: 0 };
    let dear = State { cost: 2, position: 9 };
    assert!(cheap.precedes(&dear));
    assert!(!dear.precedes(&cheap));
    let low = State { cost: 2, position: 3 };
    assert!(dear.precedes(&low));
    assert!(!low.precedes(&dear));
    assert!(low.precedes(&low));
}

#[test]
fn state_heap_hands_out_by_cost() {
    let mut heap = StateHeap::new();
    assert_eq!(heap.len(), 0);
    assert!(heap.pop().is_none());
    let costs: Vec<Weight> = vec![5, 3, 9, 3, 0, 7, 7, 1, 8, 2, 6, 4];
    for (position, cost) in costs.iter().enumerate() {
        heap.push(State { cost: *cost, position });
    }
    assert_eq!(heap.len(), 12);
    assert!(heap.capacity() >= 12);
    let mut popped = vec![];
    while let Some(state) = heap.pop() {
        popped.push((state.cost, state.position));
    }
    assert_eq!(
        popped,
        vec![(0, 4), (1, 7), (2, 9), (3, 3), (3, 1), (4, 11), (5, 0), (6, 10), (7, 6), (7, 5), (8, 8), (9, 2)]
    );
    assert_eq!(heap.len(), 0);
}

#[test]
fn state_heap_is_cleared() {
    let mut heap = StateHeap::new();
    heap.push(State { cost: 1, position: 1 });
    heap.push(State { cost: 1, position: 1 });
    assert_eq!(heap.len(), 2);
    heap.clear();
    assert_eq!(heap.len(), 0);
    assert!(heap.pop().is_none());
    heap.push(State { cost: 4, position: 2 });
    assert_eq!(heap.pop(), Some(State { cost: 4, position: 2 }));
}

fn decrease_key_queue<Q: DecKeyQueue>(dary: Dary) {
    let mut queue = Q::for_nodes(dary, 10);
    assert_eq!(queue.len(), 0);
    assert!(queue.pop().is_none());
    queue.push(3, 30);
    queue.push(7, 10);
    queue.try_decrease_key_or_push(&5, 20);
    assert_eq!(queue.len(), 3);
    assert!(queue.capacity() >= queue.len());
    queue.try_decrease_key_or_push(&3, 40);
    queue.try_decrease_key_or_push(&5, 20);
    assert_eq!(queue.len(), 3);
    queue.try_decrease_key_or_push(&3, 5);
    assert_eq!(queue.len(), 3);
    assert_eq!(queue.pop(), Some((3, 5)));
    assert_eq!(queue.pop(), Some((7, 10)));
    assert_eq!(queue.len(), 1);
    queue.push(3, 1);
    assert_eq!(queue.pop(), Some((3, 1)));
    assert_eq!(queue.pop(), Some((5, 20)));
    assert_eq!(queue.pop(), None);
    queue.push(9, 2);
    queue.push(0, 1);
    assert!(queue.capacity() >= 2);
    queue.clear();
    assert_eq!(queue.len(), 0);
    assert_eq!(queue.pop(), None);
    queue.push(9, 2);
    assert_eq!(queue.pop(), Some((9, 2)));
}

#[test]
fn indexed_heaps_of_every_arity() {
    for dary in Dary::levels() {
        decrease_key_queue::<OrxDaryHeapOfIndices>(dary);
    }
}

#[test]
fn mapped_heaps_of_every_arity() {
    for dary in Dary::levels() {
        decrease_key_queue::<OrxDaryHeapWithMap>(dary);
    }
}

#[test]
fn reverse_cost_queue_hands_out_the_least_cost() {
    decrease_key_queue::<ReverseCostQueue>(Dary::Binary);
}

#[test]
fn many_nodes_come_out_by_key() {
    for dary in Dary::levels() {
        let mut queue = <OrxDaryHeapOfIndices as DecKeyQueue>::for_nodes(dary, 200);
        for node in 0..200usize {
            queue.push(node, ((node * 37) % 101) as Weight);
            assert!(queue.capacity() >= queue.len());
        }
        assert!(queue.capacity() >= 200);
        let mut last = 0;
        let mut count = 0;
        while let Some((node, key)) = queue.pop() {
            assert_eq!(key, ((node * 37) % 101) as Weight);
            assert!(last <= key);
            last = key;
            count += 1;
        }
        assert_eq!(count, 200);
    }
}

#[test]
fn reset_fills_the_front_and_grows() {
    let mut values: Vec<u64> = vec![1, 2, 3, 4];
    reset(&mut values, 2, 9);
    assert_eq!(values, vec![9, 9, 3, 4]);
    reset(&mut values, 6, 0);
    assert_eq!(values, vec![0, 0, 0, 0, 0, 0]);
    reset(&mut values, 0, 5);
    assert_eq!(values, vec![0, 0, 0, 0, 0, 0]);
    let mut marks: Vec<bool> = vec![];
    reset(&mut marks, 3, false);
    assert_eq!(marks, vec![false, false, false]);
}

#[test]
fn states_are_ordered_by_falling_cost() {
    let cheap = State { cost: 1, position: 0 };
    let dear = State { cost: 2, position: 9 };
    let low = State { cost: 2, position: 3 };
    assert!(cheap > dear);
    assert!(dear < cheap);
    assert!(dear > low);
    assert!(low <= low && low >= low);
    assert_eq!(low.partial_cmp(&low), Some(std::cmp::Ordering::Equal));
    assert_eq!(low.partial_cmp(&cheap), Some(std::cmp::Ordering::Less));
    for first in [cheap, dear, low] {
        for second in [cheap, dear, low] {
            assert_eq!(first.precedes(&second), first >= second);
        }
    }
}
