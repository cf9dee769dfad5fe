//! Types representing errors and their details.

use vstd::prelude::*;

use crate::cfg_model::StationSpec;

pub use self::station_spec_error::StationSpecError;

pub mod station_spec_error;

verus! {

#[verifier::external_type_specification]
#[verifier::external_body]
pub struct ExJoinError(tokio::task::JoinError);

/// The message of an [`Error`] about the station with identifier `id` and
/// name `name`, after the given lead.
pub open spec fn station_error_message(lead: Seq<char>, id: Seq<char>, name: Seq<char>) -> Seq<char> {
    lead + "`"@ + id + ": "@ + name + "`"@
}

/// The message of an [`Error`], as its `Display` form shows it.
pub open spec fn error_message<C, V>(error: Error<C, V>) -> Seq<char> {
    match error {
        Error::MultiProgressJoin(_) => "Failed to join the multi-progress bar task."@,
        Error::StationQueue { station_spec } => station_error_message(
            "Failed to queue station: "@,
            station_spec.spec_id()@,
            station_spec.spec_name(),
        ),
        Error::StationVisitNotify { station_spec } => station_error_message(
            "Failed to notify completion of station: "@,
            station_spec.spec_id()@,
            station_spec.spec_name(),
        ),
    }
}

/// Error while using `choochoo`.
#[derive(Debug)]
pub enum Error<C, V> {
    /// Failed to join the multi-progress bar task.
    MultiProgressJoin(tokio::task::JoinError),
    /// Failed to queue a station for visiting.
    StationQueue {
        /// The specification of the station that failed to be queued.
        station_spec: StationSpec<C, V>,
    },
    /// Station visitor failed to notify the queuer that a station is completed.
    StationVisitNotify {
        /// The specification of the station whose notification failed to be
        /// sent.
        station_spec: StationSpec<C, V>,
    },
}

impl<C, V> Error<C, V> {
    /// Returns the readable message of this error, as its `Display` form
    /// shows it.
    pub fn to_string(&self) -> (text: String)
        ensures
            text@ == error_message(*self),
    {
        match self {
            Error::MultiProgressJoin(_) => "Failed to join the multi-progress bar task.".to_owned(),
            Error::StationQueue { station_spec } => {
                Self::station_message("Failed to queue station: ", station_spec)
            },
            Error::StationVisitNotify { station_spec } => {
                Self::station_message("Failed to notify completion of station: ", station_spec)
            },
        }
    }

    fn station_message(lead: &str, station_spec: &StationSpec<C, V>) -> (text: String)
        ensures
            text@ == station_error_message(lead@, station_spec.spec_id()@, station_spec.spec_name()),
    {
        let mut text = lead.to_owned();
        text.append("`");
        text.append(station_spec.id().as_str());
        text.append(": ");
        text.append(station_spec.name());
        text.append("`");
        text
    }
}

} // verus!
