use vstd::prelude::*;

use crate::rt_model::VisitStatus;

verus! {

/// The style in which a station's progress bar is drawn.
#[derive(Clone, Copy, Debug, PartialEq, Eq, Structural)]
pub enum ProgressStyleKind {
    /// The station waits for its parents or for a train.
    Queued,
    /// A parent of the station failed.
    ParentFailed,
    /// The station is being visited.
    InProgress,
    /// The station was visited successfully.
    Success,
    /// The station did not need a visit.
    Unchanged,
    /// The station's check or visit failed.
    Failed,
}

/// What happens to a station's progress bar after its style is set.
#[derive(Clone, Copy, Debug, PartialEq, Eq, Structural)]
pub enum ProgressBarEnd {
    /// The bar keeps running.
    Keep,
    /// The bar is finished.
    Finish,
    /// The bar is abandoned.
    Abandon,
}

/// How a station's progress bar is redrawn: the style to set, if any, and
/// whether the bar then ends.
#[derive(Clone, Copy, Debug, PartialEq, Eq, Structural)]
pub struct ProgressBarUpdate {
    /// The style to set, if any.
    pub style: Option<ProgressStyleKind>,
    /// What happens to the bar afterwards.
    pub end: ProgressBarEnd,
}

/// Runtime progress of a station towards the destination.
#[derive(Debug)]
pub struct StationProgress<E> {
    /// Whether this station has been visited.
    pub visit_status: VisitStatus,
    /// Error recorded while visiting this station, if any.
    pub error: Option<E>,
}

impl<E> StationProgress<E> {
    /// Returns a new `StationProgress` with the given visit status and no
    /// error.
    pub fn new(visit_status: VisitStatus) -> (progress: Self)
        ensures
            progress.visit_status == visit_status,
            progress.error is None,
    {
        StationProgress { visit_status, error: None }
    }
}

} // verus!
