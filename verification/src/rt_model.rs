//! Runtime data when a train plan is executed.
//!
//! Types in this module are analogous to build artifacts.

pub use self::destination::Destination;
pub use self::ensure_outcome::{EnsureOutcomeErr, EnsureOutcomeOk};
pub use self::error::{Error, StationSpecError};
pub use self::station::Station;
pub use self::station_progresses::StationProgresses;
pub use self::station_rt_id::StationRtId;
pub use self::station_specs::{StationSpecs, Stations, WouldCycleError};
pub use self::train_report::TrainReport;
pub use self::visit_status::VisitStatus;

pub mod dag;
pub mod destination;
pub mod ensure_outcome;
pub mod error;
pub mod station;
pub mod station_progresses;
pub mod station_rt_id;
pub mod station_specs;
pub mod train_report;
pub mod visit_status;
