use vstd::prelude::*;

use crate::rt_logic::strategy::integrity_strat::{lemma_queued_in_order, queued_in_order};
use crate::cfg_model::{ProgressBarEnd, ProgressBarUpdate, ProgressStyleKind};
use crate::rt_model::{Destination, StationRtId, VisitStatus};

verus! {

/// How the progress bar of a station with status `status` is redrawn.
pub open spec fn progress_bar_update_spec(status: VisitStatus) -> ProgressBarUpdate {
    match status {
        VisitStatus::NotReady | VisitStatus::Queued => ProgressBarUpdate {
            style: Some(ProgressStyleKind::Queued),
            end: ProgressBarEnd::Keep,
        },
        VisitStatus::ParentFail => ProgressBarUpdate {
            style: Some(ProgressStyleKind::ParentFailed),
            end: ProgressBarEnd::Abandon,
        },
        VisitStatus::InProgress => ProgressBarUpdate { style: None, end: ProgressBarEnd::Keep },
        VisitStatus::VisitSuccess => ProgressBarUpdate {
            style: Some(ProgressStyleKind::Success),
            end: ProgressBarEnd::Finish,
        },
        VisitStatus::VisitUnnecessary => ProgressBarUpdate {
            style: Some(ProgressStyleKind::Unchanged),
            end: ProgressBarEnd::Finish,
        },
        VisitStatus::CheckFail | VisitStatus::VisitFail => ProgressBarUpdate {
            style: Some(ProgressStyleKind::Failed),
            end: ProgressBarEnd::Abandon,
        },
    }
}

/// The stations handed out by a step of the drive: none once it is over.
pub open spec fn handed_out(round: Option<Vec<StationRtId>>) -> Seq<StationRtId> {
    match round {
        Some(queued) => queued@,
        None => Seq::empty(),
    }
}

/// Listens to station visit completions and queues more stations.
///
/// The queuer tracks the stations it has handed out and that are not done
/// yet. A round hands out every `Queued` station that is not in progress; the
/// train is finished once no station is in progress after a round.
#[derive(Debug)]
pub struct StationQueuer {
    in_progress: Vec<StationRtId>,
}

impl StationQueuer {
    /// No station is in progress twice.
    #[verifier::type_invariant]
    spec fn inv(self) -> bool {
        self.in_progress@.no_duplicates()
    }

    /// The stations handed out and not done yet, in the order in which they
    /// were handed out.
    pub closed spec fn view(&self) -> Seq<StationRtId> {
        self.in_progress@
    }

    /// Returns a queuer with no station in progress.
    pub fn new() -> (queuer: Self)
        ensures
            queuer@ == Seq::<StationRtId>::empty(),
    {
        StationQueuer { in_progress: Vec::new() }
    }

    /// Returns the number of stations in progress.
    pub fn stations_in_progress_count(&self) -> (count: usize)
        ensures
            count == self@.len(),
    {
        self.in_progress.len()
    }

    /// Hands out the stations that are `Queued` and not in progress, in
    /// order of their runtime identifiers, and marks them in progress.
    pub fn queue_stations<C, V, E>(&mut self, dest: &Destination<C, V, E>) -> (queued: Vec<
        StationRtId,
    >)
        ensures
            queued@ == queued_in_order(
                dest.statuses(),
                dest.specs().specs().len(),
                old(self)@.to_set(),
            ),
            final(self)@ == old(self)@ + queued@,
    {
        proof {
            use_type_invariant(&*self);
        }
        let n = dest.station_specs().node_count();
        let ghost excluded = self@.to_set();
        let mut queued = Vec::new();
        let mut i: usize = 0;
        while i < n
            invariant
                i <= n,
                n == dest.specs().specs().len(),
                excluded == old(self)@.to_set(),
                self@ == old(self)@,
                queued@ == queued_in_order(dest.statuses(), i as nat, excluded),
            decreases n - i,
        {
            if dest.station_progresses().visit_status(i) == Some(VisitStatus::Queued)
                && !self.is_in_progress(i) {
                queued.push(i);
            }
            i += 1;
        }
        let mut taken = StationQueuer::new();
        std::mem::swap(&mut taken, self);
        let StationQueuer { mut in_progress } = taken;
        let mut j: usize = 0;
        let ghost before = in_progress@;
        proof {
            lemma_queued_in_order(dest.statuses(), n as nat, excluded);
        }
        while j < queued.len()
            invariant
                j <= queued@.len(),
                before == old(self)@,
                before.no_duplicates(),
                excluded == before.to_set(),
                in_progress@ == before + queued@.subrange(0, j as int),
                queued@ == queued_in_order(dest.statuses(), n as nat, excluded),
                forall|a: int| 0 <= a < queued@.len() ==> !excluded.contains(#[trigger] queued@[a]),
                forall|a: int, b: int| 0 <= a < b < queued@.len() ==> #[trigger] queued@[a] < #[trigger] queued@[b],
                in_progress@.no_duplicates(),
            decreases queued@.len() - j,
        {
            let k = queued[j];
            proof {
                assert forall|a: int| 0 <= a < in_progress@.len() implies #[trigger] in_progress@[a] != k by {
                    if a < before.len() {
                        assert(excluded.contains(before[a]));
                    } else {
                        assert(in_progress@[a] == queued@[a - before.len()]);
                    }
                }
            }
            in_progress.push(k);
            assert(in_progress@ =~= before + queued@.subrange(0, j + 1));
            j += 1;
        }
        assert(queued@.subrange(0, queued@.len() as int) =~= queued@);
        *self = StationQueuer { in_progress };
        queued
    }

    /// Starts a round of visits: hands out the stations that are `Queued`
    /// and not in progress, in order of their runtime identifiers, marks them
    /// in progress, and sets their visit status to `InProgress`. The other
    /// stations, and every error, are left as they are.
    pub fn start_round<C, V, E>(&mut self, dest: &mut Destination<C, V, E>) -> (queued: Vec<
        StationRtId,
    >)
        ensures
            queued@ == queued_in_order(
                old(dest).statuses(),
                old(dest).specs().specs().len(),
                old(self)@.to_set(),
            ),
            final(self)@ == old(self)@ + queued@,
            final(dest).specs() == old(dest).specs(),
            final(dest).progresses().dom() == old(dest).progresses().dom(),
            forall|k: usize| #[trigger]
                final(dest).progresses().contains_key(k) ==> final(dest).progresses()[k].error == old(
                    dest,
                ).progresses()[k].error && final(dest).progresses()[k].visit_status == (if queued@.contains(k) {
                    VisitStatus::InProgress
                } else {
                    old(dest).progresses()[k].visit_status
                }),
    {
        let queued = self.queue_stations(&*dest);
        proof {
            lemma_queued_in_order(
                old(dest).statuses(),
                old(dest).specs().specs().len(),
                old(self)@.to_set(),
            );
        }
        let ghost start = dest.progresses();
        let mut i: usize = 0;
        while i < queued.len()
            invariant
                i <= queued@.len(),
                start == old(dest).progresses(),
                queued@ == queued_in_order(
                    old(dest).statuses(),
                    old(dest).specs().specs().len(),
                    old(self)@.to_set(),
                ),
                forall|a: int|
                    0 <= a < queued@.len() ==> #[trigger] old(dest).statuses().contains_key(
                        queued@[a],
                    ),
                dest.specs() == old(dest).specs(),
                dest.progresses().dom() == start.dom(),
                forall|k: usize| #[trigger]
                    dest.progresses().contains_key(k) ==> dest.progresses()[k].error == start[k].error
                        && dest.progresses()[k].visit_status == (if queued@.take(i as int).contains(k) {
                        VisitStatus::InProgress
                    } else {
                        start[k].visit_status
                    }),
            decreases queued@.len() - i,
        {
            let rt_id = queued[i];
            proof {
                assert(old(dest).statuses().contains_key(queued@[i as int]));
                assert(queued@.take(i + 1) =~= queued@.take(i as int).push(rt_id));
            }
            let ghost before = dest.progresses();
            let ghost seen = queued@.take(i as int);
            let ghost next = queued@.take(i + 1);
            dest.set_visit_status(rt_id, VisitStatus::InProgress);
            proof {
                assert(dest.progresses().dom() =~= start.dom());
                assert forall|k: usize| #[trigger] dest.progresses().contains_key(k) implies dest.progresses()[k].error
                    == start[k].error && dest.progresses()[k].visit_status == (if queued@.take(i + 1).contains(k) {
                    VisitStatus::InProgress
                } else {
                    start[k].visit_status
                }) by {
                    assert(before.contains_key(k));
                    if k == rt_id {
                        assert(next[i as int] == k);
                    } else {
                        assert(next.contains(k) == seen.contains(k)) by {
                            if seen.contains(k) {
                                let a = choose|a: int| 0 <= a < seen.len() && #[trigger] seen[a] == k;
                                assert(next[a] == k);
                            }
                            if next.contains(k) {
                                let a = choose|a: int| 0 <= a < next.len() && #[trigger] next[a] == k;
                                assert(seen[a] == k);
                            }
                        }
                    }
                }
            }
            i += 1;
        }
        proof {
            assert(queued@.take(i as int) =~= queued@);
        }
        queued
    }

    /// Takes the next step of a drive: hands out, and marks `InProgress`, the
    /// stations that [`StationQueuer::start_round`] hands out. Returns `None`
    /// once the drive is over, when no station was handed out and none is in
    /// progress; otherwise the stations handed out (possibly none, while
    /// others are still being visited).
    pub fn next_round<C, V, E>(&mut self, dest: &mut Destination<C, V, E>) -> (round: Option<
        Vec<StationRtId>,
    >)
        ensures
            handed_out(round) == queued_in_order(
                old(dest).statuses(),
                old(dest).specs().specs().len(),
                old(self)@.to_set(),
            ),
            final(self)@ == old(self)@ + handed_out(round),
            round is None <==> final(self)@.len() == 0,
            final(dest).specs() == old(dest).specs(),
            final(dest).progresses().dom() == old(dest).progresses().dom(),
            forall|k: usize| #[trigger]
                final(dest).progresses().contains_key(k) ==> final(dest).progresses()[k].error == old(
                    dest,
                ).progresses()[k].error && final(dest).progresses()[k].visit_status == (if handed_out(
                    round,
                ).contains(k) {
                    VisitStatus::InProgress
                } else {
                    old(dest).progresses()[k].visit_status
                }),
    {
        let queued = self.start_round(dest);
        if self.stations_in_progress_count() == 0 {
            assert(queued@ =~= Seq::<StationRtId>::empty());
            None
        } else {
            Some(queued)
        }
    }

    /// Returns how the progress bar of a station with status `status` is
    /// redrawn, when the bar is not finished yet.
    pub fn station_progress_bar_update(status: VisitStatus) -> (update: ProgressBarUpdate)
        ensures
            update == progress_bar_update_spec(status),
    {
        match status {
            VisitStatus::NotReady | VisitStatus::Queued => ProgressBarUpdate {
                style: Some(ProgressStyleKind::Queued),
                end: ProgressBarEnd::Keep,
            },
            VisitStatus::ParentFail => ProgressBarUpdate {
                style: Some(ProgressStyleKind::ParentFailed),
                end: ProgressBarEnd::Abandon,
            },
            VisitStatus::InProgress => ProgressBarUpdate { style: None, end: ProgressBarEnd::Keep },
            VisitStatus::VisitSuccess => ProgressBarUpdate {
                style: Some(ProgressStyleKind::Success),
                end: ProgressBarEnd::Finish,
            },
            VisitStatus::VisitUnnecessary => ProgressBarUpdate {
                style: Some(ProgressStyleKind::Unchanged),
                end: ProgressBarEnd::Finish,
            },
            VisitStatus::CheckFail | VisitStatus::VisitFail => ProgressBarUpdate {
                style: Some(ProgressStyleKind::Failed),
                end: ProgressBarEnd::Abandon,
            },
        }
    }

    /// Returns how the progress bar of every station that has progress is
    /// redrawn, in order of runtime identifiers.
    pub fn progress_bar_update_all<C, V, E>(dest: &Destination<C, V, E>) -> (updates: Vec<
        (StationRtId, ProgressBarUpdate),
    >)
        ensures
            forall|i: int|
                0 <= i < updates@.len() ==> {
                    let (rt_id, update) = #[trigger] updates@[i];
                    &&& (rt_id as int) < dest.specs().specs().len()
                    &&& dest.statuses().contains_key(rt_id)
                    &&& update == progress_bar_update_spec(dest.statuses()[rt_id])
                },
            forall|i: int, j: int|
                0 <= i < j < updates@.len() ==> (#[trigger] updates@[i]).0 < (#[trigger] updates@[j]).0,
            forall|k: usize|
                (k as int) < dest.specs().specs().len() && dest.statuses().contains_key(k)
                    ==> exists|i: int| 0 <= i < updates@.len() && (#[trigger] updates@[i]).0 == k,
    {
        let stations = dest.stations();
        let mut updates: Vec<(StationRtId, ProgressBarUpdate)> = Vec::new();
        let mut i: usize = 0;
        while i < stations.len()
            invariant
                i <= stations@.len(),
                updates@.len() == i,
                forall|a: int|
                    0 <= a < i ==> {
                        let s = stations@[a];
                        #[trigger] updates@[a] == (s.rt_id, progress_bar_update_spec(
                            s.progress.visit_status,
                        ))
                    },
            decreases stations@.len() - i,
        {
            let station = &stations[i];
            updates.push((station.rt_id, Self::station_progress_bar_update(station.progress.visit_status)));
            i += 1;
        }
        proof {
            assert forall|k: usize|
                (k as int) < dest.specs().specs().len() && dest.statuses().contains_key(k)
                    implies exists|a: int| 0 <= a < updates@.len() && (#[trigger] updates@[a]).0 == k by {
                assert(dest.progresses().contains_key(k));
                let a = choose|a: int| 0 <= a < stations@.len() && #[trigger] stations@[a].rt_id == k;
                assert(updates@[a].0 == k);
            }
            assert forall|a: int, b: int| 0 <= a < b < updates@.len() implies (#[trigger] updates@[a]).0
                < (#[trigger] updates@[b]).0 by {
                assert(stations@[a].rt_id < stations@[b].rt_id);
            }
        }
        updates
    }

    /// Returns whether station `rt_id` is in progress.
    pub fn is_in_progress(&self, rt_id: StationRtId) -> (in_progress: bool)
        ensures
            in_progress == self@.contains(rt_id),
    {
        let mut i: usize = 0;
        while i < self.in_progress.len()
            invariant
                i <= self@.len(),
                forall|a: int| 0 <= a < i ==> self@[a] != rt_id,
            decreases self@.len() - i,
        {
            if self.in_progress[i] == rt_id {
                return true;
            }
            i += 1;
        }
        false
    }

    /// Records that the visit of station `rt_id` is done: it is no longer in
    /// progress. Returns whether it was in progress.
    pub fn station_done(&mut self, rt_id: StationRtId) -> (was_in_progress: bool)
        ensures
            was_in_progress == old(self)@.contains(rt_id),
            final(self)@.to_set() == old(self)@.to_set().remove(rt_id),
            final(self)@.len() == (if was_in_progress {
                old(self)@.len() - 1
            } else {
                old(self)@.len() as int
            }),
    {
        proof {
            use_type_invariant(&*self);
        }
        let mut i: usize = 0;
        while i < self.in_progress.len()
            invariant
                i <= self@.len(),
                self@ == old(self)@,
                old(self)@.no_duplicates(),
                forall|a: int| 0 <= a < i ==> self@[a] != rt_id,
            decreases self@.len() - i,
        {
            if self.in_progress[i] == rt_id {
                let mut taken = StationQueuer::new();
                std::mem::swap(&mut taken, self);
                let StationQueuer { mut in_progress } = taken;
                let ghost before = in_progress@;
                in_progress.remove(i);
                proof {
                    assert(in_progress@ =~= before.remove(i as int));
                    assert(in_progress@.to_set() =~= before.to_set().remove(rt_id)) by {
                        assert forall|x: usize| #[trigger] in_progress@.contains(x) implies before.contains(x) && x != rt_id by {
                            let a = choose|a: int| 0 <= a < in_progress@.len() && in_progress@[a] == x;
                            if a < i {
                                assert(before[a] == x);
                                assert(a != i);
                            } else {
                                assert(before[a + 1] == x);
                                assert(a + 1 != i);
                            }
                        }
                        assert forall|x: usize| before.contains(x) && x != rt_id implies #[trigger] in_progress@.contains(x) by {
                            let a = choose|a: int| 0 <= a < before.len() && before[a] == x;
                            if a < i {
                                assert(in_progress@[a] == x);
                            } else {
                                assert(a != i);
                                assert(in_progress@[a - 1] == x);
                            }
                        }
                    }
                    assert(before.contains(rt_id));
                    assert(in_progress@.no_duplicates()) by {
                        assert forall|a: int, b: int| 0 <= a < b < in_progress@.len() implies in_progress@[a] != in_progress@[b] by {
                            let a2 = if a < i { a } else { a + 1 };
                            let b2 = if b < i { b } else { b + 1 };
                            assert(in_progress@[a] == before[a2]);
                            assert(in_progress@[b] == before[b2]);
                        }
                    }
                }
                *self = StationQueuer { in_progress };
                return true;
            }
            i += 1;
        }
        assert(self@.to_set() =~= old(self)@.to_set().remove(rt_id));
        false
    }
}

} // verus!
