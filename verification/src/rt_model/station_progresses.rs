use vstd::prelude::*;
use vstd::pervasive::VecAdditionalExecFns;

use crate::cfg_model::StationProgress;
use crate::rt_model::{StationRtId, VisitStatus};

verus! {

/// The map held by a sequence of optional entries: key `k` maps to the value
/// of entry `k` where that entry is present.
pub open spec fn entries_map<P>(entries: Seq<Option<P>>) -> Map<usize, P> {
    Map::new(
        |k: usize| (k as int) < entries.len() && entries[k as int] is Some,
        |k: usize| entries[k as int]->Some_0,
    )
}

/// The visit status of each station that has progress.
pub open spec fn statuses_of<E>(m: Map<usize, StationProgress<E>>) -> Map<usize, VisitStatus> {
    m.map_values(|p: StationProgress<E>| p.visit_status)
}

/// Map from station runtime identifier to the station's runtime progress.
#[derive(Debug)]
pub struct StationProgresses<E> {
    entries: Vec<Option<StationProgress<E>>>,
}

impl<E> StationProgresses<E> {
    /// The progress of each station, keyed by runtime identifier.
    pub closed spec fn view(&self) -> Map<usize, StationProgress<E>> {
        entries_map(self.entries@)
    }

    /// Returns an empty `StationProgresses` map.
    pub fn new() -> (m: Self)
        ensures
            m@ == Map::<usize, StationProgress<E>>::empty(),
    {
        let m = StationProgresses { entries: Vec::new() };
        assert(m@ =~= Map::<usize, StationProgress<E>>::empty());
        m
    }

    /// Creates an empty `StationProgresses` map with room for `capacity`
    /// stations.
    pub fn with_capacity(capacity: usize) -> (m: Self)
        ensures
            m@ == Map::<usize, StationProgress<E>>::empty(),
    {
        let m = StationProgresses { entries: Vec::with_capacity(capacity) };
        assert(m@ =~= Map::<usize, StationProgress<E>>::empty());
        m
    }

    /// Inserts the progress of station `rt_id`, returning its previous
    /// progress, if any.
    pub fn insert(&mut self, rt_id: StationRtId, progress: StationProgress<E>) -> (prev: Option<
        StationProgress<E>,
    >)
        requires
            rt_id < usize::MAX,
        ensures
            final(self)@ == old(self)@.insert(rt_id, progress),
            prev == old(self)@.get(rt_id),
    {
        let ghost before = self.entries@;
        while self.entries.len() <= rt_id
            invariant
                rt_id < usize::MAX,
                self.entries@.len() >= before.len(),
                self.entries@.subrange(0, before.len() as int) == before,
                forall|i: int| before.len() <= i < self.entries@.len() ==> self.entries@[i] is None,
            decreases rt_id + 1 - self.entries@.len(),
        {
            self.entries.push(None);
        }
        assert(entries_map(self.entries@) =~= entries_map(before)) by {
            assert forall|k: usize| #[trigger] entries_map(self.entries@).contains_key(k)
                implies entries_map(before).contains_key(k) by {
                assert(self.entries@[k as int] == self.entries@.subrange(0, before.len() as int)[k as int]);
            }
            assert forall|k: usize| #[trigger] entries_map(before).contains_key(k)
                implies entries_map(self.entries@).contains_key(k)
                && entries_map(self.entries@)[k] == entries_map(before)[k] by {
                assert(self.entries@[k as int] == self.entries@.subrange(0, before.len() as int)[k as int]);
            }
        }
        let mut slot = Some(progress);
        self.entries.set_and_swap(rt_id, &mut slot);
        assert(self@ =~= old(self)@.insert(rt_id, progress));
        slot
    }

    /// Removes the progress of station `rt_id` and returns it, if any.
    pub fn remove(&mut self, rt_id: StationRtId) -> (removed: Option<StationProgress<E>>)
        ensures
            final(self)@ == old(self)@.remove(rt_id),
            removed == old(self)@.get(rt_id),
    {
        if rt_id < self.entries.len() {
            let mut slot: Option<StationProgress<E>> = None;
            self.entries.set_and_swap(rt_id, &mut slot);
            assert(self@ =~= old(self)@.remove(rt_id));
            slot
        } else {
            assert(self@ =~= old(self)@.remove(rt_id));
            None
        }
    }

    /// Returns the progress of station `rt_id`, if any.
    pub fn get(&self, rt_id: StationRtId) -> (progress: Option<&StationProgress<E>>)
        ensures
            progress matches Some(p) ==> self@.contains_key(rt_id) && *p == self@[rt_id],
            progress is None ==> !self@.contains_key(rt_id),
    {
        if rt_id < self.entries.len() {
            match &self.entries[rt_id] {
                Some(p) => Some(p),
                None => None,
            }
        } else {
            None
        }
    }

    /// Returns whether station `rt_id` has progress.
    pub fn contains_key(&self, rt_id: StationRtId) -> (contains: bool)
        ensures
            contains == self@.contains_key(rt_id),
    {
        self.get(rt_id).is_some()
    }

    /// Returns the visit status of station `rt_id`, if it has progress.
    pub fn visit_status(&self, rt_id: StationRtId) -> (status: Option<VisitStatus>)
        ensures
            status == statuses_of(self@).get(rt_id),
    {
        match self.get(rt_id) {
            Some(p) => Some(p.visit_status),
            None => None,
        }
    }

    /// Sets the visit status of station `rt_id`, keeping its error.
    pub fn set_visit_status(&mut self, rt_id: StationRtId, visit_status: VisitStatus)
        requires
            old(self)@.contains_key(rt_id),
        ensures
            final(self)@ == old(self)@.insert(
                rt_id,
                StationProgress { visit_status, error: old(self)@[rt_id].error },
            ),
    {
        let mut slot: Option<StationProgress<E>> = None;
        self.entries.set_and_swap(rt_id, &mut slot);
        let mut progress = slot.unwrap();
        progress.visit_status = visit_status;
        let mut slot = Some(progress);
        self.entries.set_and_swap(rt_id, &mut slot);
        assert(self@ =~= old(self)@.insert(
            rt_id,
            StationProgress { visit_status, error: old(self)@[rt_id].error },
        ));
    }

    /// Sets the error of station `rt_id`, keeping its visit status, and
    /// returns the error it held before.
    pub fn replace_error(&mut self, rt_id: StationRtId, error: Option<E>) -> (prev: Option<E>)
        requires
            old(self)@.contains_key(rt_id),
        ensures
            prev == old(self)@[rt_id].error,
            final(self)@ == old(self)@.insert(
                rt_id,
                StationProgress { visit_status: old(self)@[rt_id].visit_status, error },
            ),
    {
        let mut slot: Option<StationProgress<E>> = None;
        self.entries.set_and_swap(rt_id, &mut slot);
        let mut progress = slot.unwrap();
        let ghost progress_error = error;
        let mut error = error;
        std::mem::swap(&mut progress.error, &mut error);
        let prev = error;
        let mut slot = Some(progress);
        self.entries.set_and_swap(rt_id, &mut slot);
        assert(self@ =~= old(self)@.insert(
            rt_id,
            StationProgress { visit_status: old(self)@[rt_id].visit_status, error: progress_error },
        ));
        prev
    }
}

} // verus!
