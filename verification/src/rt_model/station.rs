use vstd::prelude::*;

use crate::cfg_model::{StationProgress, StationSpec};
use crate::rt_model::StationRtId;

verus! {

/// Station runtime information.
#[derive(Debug)]
pub struct Station<'s, C, V, E> {
    /// Behaviour specification of the station.
    pub spec: &'s StationSpec<C, V>,
    /// Runtime identifier for a station.
    pub rt_id: StationRtId,
    /// Station progress to reaching the destination.
    pub progress: &'s StationProgress<E>,
}

} // verus!
