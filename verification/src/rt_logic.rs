//! Logic to update runtime data.

pub use self::driver::Driver;
pub use self::visit_status_updater::VisitStatusUpdater;

pub mod drive_laws;
pub mod driver;
pub mod driver_laws;
pub mod strategy;
pub mod visit_status_laws;
pub mod visit_status_updater;
