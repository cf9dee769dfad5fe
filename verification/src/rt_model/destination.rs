use vstd::prelude::*;

use crate::cfg_model::{StationId, StationSpec};
use crate::rt_model::station_progresses::{statuses_of, StationProgresses};
use crate::rt_model::{Station, StationRtId, StationSpecs, VisitStatus};

verus! {

/// Whether `rt_id` is the last station of `specs` whose identifier is `id`.
pub open spec fn is_last_with_id<C, V>(
    specs: Seq<StationSpec<C, V>>,
    id: Seq<char>,
    rt_id: StationRtId,
) -> bool {
    &&& (rt_id as int) < specs.len()
    &&& specs[rt_id as int].spec_id()@ == id
    &&& forall|j: int| rt_id < j < specs.len() ==> #[trigger] specs[j].spec_id()@ != id
}

/// Specification of a desired state: the stations along the way, and the
/// progress of each of them.
#[derive(Debug)]
pub struct Destination<C, V, E> {
    /// The stations along the way to the destination.
    station_specs: StationSpecs<C, V>,
    /// Progress information for each station.
    station_progresses: StationProgresses<E>,
}

impl<C, V, E> Destination<C, V, E> {
    /// The stations along the way to the destination.
    pub closed spec fn specs(&self) -> StationSpecs<C, V> {
        self.station_specs
    }

    /// The progress of each station, keyed by runtime identifier.
    pub closed spec fn progresses(&self) -> Map<usize, crate::cfg_model::StationProgress<E>> {
        self.station_progresses@
    }

    /// The visit status of each station that has progress.
    pub open spec fn statuses(&self) -> Map<usize, VisitStatus> {
        statuses_of(self.progresses())
    }

    /// Returns a new `Destination`.
    ///
    /// # Parameters
    ///
    /// * `station_specs`: The stations along the way to the destination.
    /// * `station_progresses`: The initial state of the stations.
    pub fn new(station_specs: StationSpecs<C, V>, station_progresses: StationProgresses<E>) -> (dest:
        Self)
        ensures
            dest.specs() == station_specs,
            dest.progresses() == station_progresses@,
    {
        Destination { station_specs, station_progresses }
    }

    /// Returns an empty `Destination`: no stations, no progress.
    pub fn empty() -> (dest: Self)
        ensures
            dest.specs().specs() == Seq::<StationSpec<C, V>>::empty(),
            dest.specs().parents() == Seq::<Seq<usize>>::empty(),
            dest.progresses() == Map::<usize, crate::cfg_model::StationProgress<E>>::empty(),
    {
        Destination { station_specs: StationSpecs::new(), station_progresses: StationProgresses::new() }
    }

    /// Returns a reference to the [`StationSpecs`] for this destination.
    pub fn station_specs(&self) -> (specs: &StationSpecs<C, V>)
        ensures
            *specs == self.specs(),
    {
        &self.station_specs
    }

    /// Returns a reference to the station progresses.
    pub fn station_progresses(&self) -> (progresses: &StationProgresses<E>)
        ensures
            progresses@ == self.progresses(),
    {
        &self.station_progresses
    }

    /// Returns a mutable reference to the station progresses.
    pub fn station_progresses_mut(&mut self) -> (progresses: &mut StationProgresses<E>)
        ensures
            progresses@ == old(self).progresses(),
            final(self).progresses() == final(progresses)@,
            final(self).specs() == old(self).specs(),
    {
        &mut self.station_progresses
    }

    /// Returns the runtime identifier of the station with the given
    /// identifier. Where several stations share it, the last one added wins.
    pub fn station_id_to_rt_id(&self, id: &StationId) -> (rt_id: Option<StationRtId>)
        ensures
            rt_id matches Some(i) ==> is_last_with_id(self.specs().specs(), id@, i),
            rt_id is None ==> forall|j: int|
                0 <= j < self.specs().specs().len() ==> #[trigger] self.specs().specs()[j].spec_id()@
                    != id@,
    {
        let specs = self.station_specs.iter();
        let mut i = specs.len();
        while i > 0
            invariant
                i <= specs@.len(),
                specs@ == self.specs().specs(),
                forall|j: int| i <= j < specs@.len() ==> #[trigger] specs@[j].spec_id()@ != id@,
            decreases i,
        {
            i = i - 1;
            if specs[i].id().same_as(id) {
                return Some(i);
            }
        }
        None
    }

    /// Returns the stations of this destination that have progress, in
    /// order of their runtime identifiers.
    pub fn stations(&self) -> (stations: Vec<Station<'_, C, V, E>>)
        ensures
            forall|i: int|
                0 <= i < stations@.len() ==> {
                    let s = #[trigger] stations@[i];
                    &&& (s.rt_id as int) < self.specs().specs().len()
                    &&& *s.spec == self.specs().specs()[s.rt_id as int]
                    &&& self.progresses().contains_key(s.rt_id)
                    &&& *s.progress == self.progresses()[s.rt_id]
                },
            forall|i: int, j: int|
                0 <= i < j < stations@.len() ==> #[trigger] stations@[i].rt_id < #[trigger] stations@[j].rt_id,
            forall|k: usize|
                (k as int) < self.specs().specs().len() && self.progresses().contains_key(k)
                    ==> exists|i: int| 0 <= i < stations@.len() && #[trigger] stations@[i].rt_id == k,
    {
        let n = self.station_specs.node_count();
        let mut stations: Vec<Station<'_, C, V, E>> = Vec::new();
        let mut i: usize = 0;
        while i < n
            invariant
                i <= n,
                n == self.specs().specs().len(),
                forall|a: int|
                    0 <= a < stations@.len() ==> {
                        let s = #[trigger] stations@[a];
                        &&& (s.rt_id as int) < i
                        &&& *s.spec == self.specs().specs()[s.rt_id as int]
                        &&& self.progresses().contains_key(s.rt_id)
                        &&& *s.progress == self.progresses()[s.rt_id]
                    },
                forall|a: int, b: int|
                    0 <= a < b < stations@.len() ==> #[trigger] stations@[a].rt_id < #[trigger] stations@[b].rt_id,
                forall|k: usize|
                    (k as int) < i && self.progresses().contains_key(k)
                        ==> exists|a: int| 0 <= a < stations@.len() && #[trigger] stations@[a].rt_id == k,
            decreases n - i,
        {
            let ghost before = stations@;
            match self.station_progresses.get(i) {
                Some(progress) => {
                    let spec = self.station_specs.get(i).unwrap();
                    stations.push(Station { spec, rt_id: i, progress });
                },
                None => {},
            }
            proof {
                assert forall|k: usize|
                    (k as int) < i + 1 && self.progresses().contains_key(k) implies exists|a: int|
                        0 <= a < stations@.len() && #[trigger] stations@[a].rt_id == k by {
                    if (k as int) < i {
                        let a = choose|a: int| 0 <= a < before.len() && #[trigger] before[a].rt_id == k;
                        assert(stations@[a] == before[a]);
                    } else {
                        assert(stations@[stations@.len() - 1].rt_id == k);
                    }
                }
            }
            i += 1;
        }
        stations
    }

    /// Sets the visit status of station `rt_id`, keeping its error.
    pub fn set_visit_status(&mut self, rt_id: StationRtId, visit_status: VisitStatus)
        requires
            old(self).progresses().contains_key(rt_id),
        ensures
            final(self).progresses() == old(self).progresses().insert(
                rt_id,
                crate::cfg_model::StationProgress {
                    visit_status,
                    error: old(self).progresses()[rt_id].error,
                },
            ),
            final(self).specs() == old(self).specs(),
    {
        self.station_progresses.set_visit_status(rt_id, visit_status);
    }
}

} // verus!
