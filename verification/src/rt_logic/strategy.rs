//! Strategies to determine which stations to actually visit.
//!
//! * [`IntegrityStrat`]: checks each station and visits it if it is not
//!   already in the desired state.

pub use self::integrity_strat::IntegrityStrat;
pub use self::station_queuer::StationQueuer;

pub mod integrity_strat;
pub mod station_queuer;
