//! Automation that starts where it stops.
//!
//! The library holds the plan of a train (a graph of stations), the runtime
//! state of each station, and the rules that decide which station is visited
//! next and what its status becomes.

pub mod cfg_model;
pub mod fmt;
pub mod rt_model;
pub mod rt_logic;
pub mod train;

pub use crate::train::Train;
