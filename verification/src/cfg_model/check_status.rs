use vstd::prelude::*;

verus! {

/// Report of checking the status of a station.
#[derive(Clone, Copy, Debug, PartialEq, Eq, Structural)]
pub enum CheckStatus {
    /// Station is not in desired state.
    VisitRequired,
    /// Station is already in desired state.
    VisitNotRequired,
}

} // verus!
