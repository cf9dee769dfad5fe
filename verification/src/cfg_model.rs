//! Data that encodes the train execution plan.
//!
//! Types in this module are analogous to source artifacts.

pub use self::check_status::CheckStatus;
pub use self::station_id::{StationId, StationIdInvalidFmt};
pub use self::station_progress::{
    ProgressBarEnd, ProgressBarUpdate, ProgressStyleKind, StationProgress,
};
pub use self::station_spec::StationSpec;
pub use self::station_spec_fns::StationSpecFns;

pub mod check_status;
pub mod station_id;
pub mod station_progress;
pub mod station_spec;
pub mod station_spec_fns;
