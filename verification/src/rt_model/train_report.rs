use vstd::prelude::*;

use crate::rt_model::StationRtId;

verus! {

/// Record of what happened during a train's drive.
#[derive(Debug)]
pub struct TrainReport<E> {
    /// Errors of the stations that were visited but failed to work, keyed by
    /// runtime identifier, in the order in which they were recorded.
    pub errors: Vec<(StationRtId, E)>,
}

impl<E> TrainReport<E> {
    /// Returns a new, empty `TrainReport`.
    pub fn new() -> (report: Self)
        ensures
            report.errors@ == Seq::<(StationRtId, E)>::empty(),
    {
        TrainReport { errors: Vec::new() }
    }
}

} // verus!
