use vstd::prelude::*;

use crate::cfg_model::{StationId, StationSpecFns};

verus! {

/// The `Display` text of a station spec: its name, a colon and a space, and
/// its description.
pub open spec fn station_spec_text(name: Seq<char>, description: Seq<char>) -> Seq<char> {
    name + ": "@ + description
}

/// Behaviour specification for a station.
#[derive(Clone, Debug, PartialEq)]
pub struct StationSpec<C, V> {
    /// Unique identifier of the station.
    id: StationId,
    /// Human readable name of the station.
    name: String,
    /// Short description of the station's purpose.
    description: String,
    /// Steps to run when this station is visited.
    station_spec_fns: StationSpecFns<C, V>,
}

impl<C, V> StationSpec<C, V> {
    /// Unique identifier of the station.
    pub closed spec fn spec_id(&self) -> StationId {
        self.id
    }

    /// Human readable name of the station.
    pub closed spec fn spec_name(&self) -> Seq<char> {
        self.name@
    }

    /// Human readable name of the station, as the string it is held in.
    pub closed spec fn spec_name_string(&self) -> String {
        self.name
    }

    /// Short description of the station's purpose.
    pub closed spec fn spec_description(&self) -> Seq<char> {
        self.description@
    }

    /// Steps to run when this station is visited.
    pub closed spec fn spec_station_spec_fns(&self) -> StationSpecFns<C, V> {
        self.station_spec_fns
    }

    /// Whether this station has a check function.
    pub open spec fn spec_has_check_fn(&self) -> bool {
        self.spec_station_spec_fns().check_fn is Some
    }

    /// Returns a new `StationSpec`.
    ///
    /// # Parameters
    ///
    /// * `id`: Unique identifier of the station.
    /// * `name`: Human readable name of the station.
    /// * `description`: Short description of the station's purpose.
    /// * `station_spec_fns`: Steps to run when this station is visited.
    pub fn new(
        id: StationId,
        name: String,
        description: String,
        station_spec_fns: StationSpecFns<C, V>,
    ) -> (spec: Self)
        ensures
            spec.spec_id() == id,
            spec.spec_name() == name@,
            spec.spec_name_string() == name,
            spec.spec_description() == description@,
            spec.spec_station_spec_fns() == station_spec_fns,
    {
        Self { id, name, description, station_spec_fns }
    }

    /// Returns the unique identifier of the station.
    pub fn id(&self) -> (id: &StationId)
        ensures
            *id == self.spec_id(),
    {
        &self.id
    }

    /// Returns the human readable name of the station.
    pub fn name(&self) -> (name: &str)
        ensures
            name@ == self.spec_name(),
            name@ == self.spec_name_string()@,
    {
        self.name.as_str()
    }

    /// Returns a copy of the human readable name of the station.
    pub fn name_string(&self) -> (name: String)
        ensures
            name == self.spec_name_string(),
    {
        self.name.clone()
    }

    /// Returns the short description of the station's purpose.
    pub fn description(&self) -> (description: &str)
        ensures
            description@ == self.spec_description(),
    {
        self.description.as_str()
    }

    /// Returns this station's behaviours.
    pub fn station_spec_fns(&self) -> (fns: &StationSpecFns<C, V>)
        ensures
            *fns == self.spec_station_spec_fns(),
    {
        &self.station_spec_fns
    }

    /// Returns whether this station has a check function.
    pub fn has_check_fn(&self) -> (has: bool)
        ensures
            has == self.spec_has_check_fn(),
    {
        self.station_spec_fns.check_fn.is_some()
    }

    /// Returns the readable text of this station, as its `Display` form
    /// shows it: `"{name}: {description}"`.
    pub fn to_string(&self) -> (text: String)
        ensures
            text@ == station_spec_text(self.spec_name(), self.spec_description()),
    {
        let mut text = self.name.clone();
        text.append(": ");
        text.append(self.description.as_str());
        proof {
            reveal_strlit(": ");
        }
        text
    }
}

} // verus!
