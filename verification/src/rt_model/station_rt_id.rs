use vstd::prelude::*;

verus! {

/// Runtime identifier for a station: its index in the station graph.
///
/// This is a cheaper identifier than a `StationId` to copy around.
pub type StationRtId = usize;

} // verus!
