use vstd::prelude::*;
use vstd::std_specs::convert::FromSpecImpl;

use crate::cfg_model::StationId;

verus! {

/// The message of a `VisitRequiredAfterVisit` error for the station with
/// identifier `id` and name `name`.
pub open spec fn visit_required_after_visit_message(id: Seq<char>, name: Seq<char>) -> Seq<char> {
    "Station `"@ + id + ": "@ + name
        + "`'s check function reported the station still requires a visit after the visit function was run."@
}

/// There is a bug with the station specification.
#[derive(Clone, Debug, PartialEq)]
pub enum StationSpecError {
    /// The `check_fn` provided in the station spec functions returned
    /// `CheckStatus::VisitRequired` after the station was visited.
    VisitRequiredAfterVisit {
        /// Unique identifier of the station.
        id: StationId,
        /// Human readable name of the station.
        name: String,
    },
}

impl StationSpecError {
    /// Returns the readable message of this error, as its `Display` form
    /// shows it.
    pub fn to_string(&self) -> (text: String)
        ensures
            text@ == (match self {
                StationSpecError::VisitRequiredAfterVisit { id, name } =>
                    visit_required_after_visit_message(id@, name@),
            }),
    {
        match self {
            StationSpecError::VisitRequiredAfterVisit { id, name } => {
                let mut text = "Station `".to_owned();
                text.append(id.as_str());
                text.append(": ");
                text.append(name.as_str());
                text.append(
                    "`'s check function reported the station still requires a visit after the visit function was run.",
                );
                proof {
                    reveal_strlit("Station `");
                    reveal_strlit(": ");
                    reveal_strlit(
                        "`'s check function reported the station still requires a visit after the visit function was run.",
                    );
                }
                text
            },
        }
    }
}

impl From<StationSpecError> for () {
    fn from(_error: StationSpecError) -> (unit: ()) {
    }
}

impl FromSpecImpl<StationSpecError> for () {
    open spec fn obeys_from_spec() -> bool {
        true
    }

    open spec fn from_spec(v: StationSpecError) -> () {
        ()
    }
}

} // verus!
