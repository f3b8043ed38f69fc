//! The measure of the time that a query takes.
use crate::algorithm::measure::run_measure::Measure;
use crate::graph::adjacency::Adjacency;
use crate::graph::sp_graph::SpGraph;
use crate::Weight;
use std::time::Instant;
use vstd::prelude::*;

verus! {

#[verifier::external_type_specification]
#[verifier::external_body]
pub struct ExInstant(Instant);

/// `Instant::now`: the present moment.
#[verifier::external_body]
fn instant_now() -> Instant {
    Instant::now()
}

/// `Instant::elapsed` and `Duration::as_nanos`: the time that has passed
/// since `start`, in nanoseconds. A `Duration` holds at most `u64::MAX`
/// seconds and less than a second on top, so that their number is below
/// the largest `u128`.
#[verifier::external_body]
fn instant_elapsed_nanos(start: &Instant) -> (nanos: u128)
    ensures
        nanos < NOT_STOPPED,
{
    start.elapsed().as_nanos()
}

/// The nanoseconds that stand for a time that has not been taken.
pub const NOT_STOPPED: u128 = u128::MAX;

pub struct Time {
    pub start_time: Instant,
    /// The time between `start` and `stop` in nanoseconds, `NOT_STOPPED`
    /// before `stop`.
    pub elapsed_nanos: u128,
}

impl Time {
    pub fn start() -> (time: Self)
        ensures
            time.elapsed_nanos == NOT_STOPPED,
    {
        Self { start_time: instant_now(), elapsed_nanos: NOT_STOPPED }
    }

    /// Takes the time that has passed since the start. From then on the
    /// time that is held is an actual time.
    pub fn stop(&mut self)
        ensures
            final(self).start_time == old(self).start_time,
            final(self).elapsed_nanos < NOT_STOPPED,
    {
        self.elapsed_nanos = instant_elapsed_nanos(&self.start_time);
    }
}

impl Measure for Time {
    open spec fn observes(
        &self,
        adjacency: Adjacency,
        source: usize,
        sink: usize,
        outcome: Option<Option<Weight>>,
    ) -> bool {
        true
    }

    /// A step leaves the measure as it is.
    open spec fn steps(before: Self, heap_length: usize, heap_capacity: usize, after: Self) -> bool {
        after == before
    }

    /// The time starts and is not taken yet.
    fn initialize<G: SpGraph>(_graph: &G, _source: usize, _sink: usize) -> (measure: Self)
        ensures
            measure.elapsed_nanos == NOT_STOPPED,
    {
        Self::start()
    }

    #[inline(always)]
    fn iterate(&mut self, _heap_length: usize, _heap_capacity: usize)
        ensures
            *final(self) == *old(self),
    {
    }

    /// The time is taken.
    fn finalize(&mut self, _shortest_distance: Option<Weight>)
        ensures
            final(self).start_time == old(self).start_time,
            final(self).elapsed_nanos < NOT_STOPPED,
    {
        self.stop()
    }
}

} // verus!
