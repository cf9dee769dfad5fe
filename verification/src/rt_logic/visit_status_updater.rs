use std::marker::PhantomData;

use vstd::prelude::*;

use crate::rt_model::station_progresses::statuses_of;
use crate::rt_model::{Destination, StationRtId, VisitStatus};

verus! {

/// A parent with this status lets its children be queued.
pub open spec fn parent_done(s: VisitStatus) -> bool {
    s == VisitStatus::VisitSuccess || s == VisitStatus::VisitUnnecessary
}

/// A parent with this status makes its children fail.
pub open spec fn parent_failed(s: VisitStatus) -> bool {
    s == VisitStatus::VisitFail || s == VisitStatus::CheckFail || s == VisitStatus::ParentFail
}

/// Whether some parent in `parents` that has progress failed.
pub open spec fn some_parent_failed(statuses: Map<usize, VisitStatus>, parents: Seq<usize>) -> bool {
    exists|j: int|
        0 <= j < parents.len() && statuses.contains_key(#[trigger] parents[j]) && parent_failed(
            statuses[parents[j]],
        )
}

/// Whether every parent in `parents` that has progress is done.
pub open spec fn all_parents_done(statuses: Map<usize, VisitStatus>, parents: Seq<usize>) -> bool {
    forall|j: int|
        0 <= j < parents.len() && statuses.contains_key(#[trigger] parents[j]) ==> parent_done(
            statuses[parents[j]],
        )
}

/// The status a `NotReady` station moves to, given the statuses of the
/// stations and its parents (parents without progress do not count): if any
/// parent failed, `ParentFail`; otherwise, if every parent is done, `Queued`;
/// otherwise it stays as it is (`None`).
pub open spec fn transition_not_ready_spec(
    statuses: Map<usize, VisitStatus>,
    parents: Seq<usize>,
) -> Option<VisitStatus> {
    if some_parent_failed(statuses, parents) {
        Some(VisitStatus::ParentFail)
    } else if all_parents_done(statuses, parents) {
        Some(VisitStatus::Queued)
    } else {
        None
    }
}

/// The status station `rt_id` moves to, if any: only `NotReady` stations
/// move.
pub open spec fn visit_status_next_spec(
    statuses: Map<usize, VisitStatus>,
    g: Seq<Seq<usize>>,
    rt_id: usize,
) -> Option<VisitStatus> {
    if (rt_id as int) < g.len() && statuses.contains_key(rt_id) && statuses[rt_id]
        == VisitStatus::NotReady {
        transition_not_ready_spec(statuses, g[rt_id as int])
    } else {
        None
    }
}

/// The statuses after the first `n` stations have been updated, in order of
/// their runtime identifiers; each station sees the statuses its
/// predecessors were given.
pub open spec fn update_prefix(
    statuses: Map<usize, VisitStatus>,
    g: Seq<Seq<usize>>,
    n: nat,
) -> Map<usize, VisitStatus>
    decreases n,
{
    if n == 0 {
        statuses
    } else {
        let prev = update_prefix(statuses, g, (n - 1) as nat);
        let i = n - 1;
        if i <= usize::MAX {
            match visit_status_next_spec(prev, g, i as usize) {
                Some(s) => prev.insert(i as usize, s),
                None => prev,
            }
        } else {
            prev
        }
    }
}

/// The statuses after one update pass over all stations of `g`.
pub open spec fn updated_statuses(statuses: Map<usize, VisitStatus>, g: Seq<Seq<usize>>) -> Map<
    usize,
    VisitStatus,
> {
    update_prefix(statuses, g, g.len())
}

/// Updates the [`VisitStatus`]es for all stations.
///
/// The new visit status is calculated based on the station's current status
/// and its parents' [`VisitStatus`]es.
///
/// # `VisitStatus` State Machine
///
/// ## `NotReady` Stations
///
/// * If all parents are `VisitSuccess` or `VisitUnnecessary`, switch to
///   `Queued`.
/// * If a parent has `VisitFail`, `CheckFail` or `ParentFail`, switch to
///   `ParentFail`.
///
/// ## Other Stations
///
/// No transitions: the train sets `InProgress`, and then `VisitSuccess`,
/// `VisitUnnecessary`, `CheckFail` or `VisitFail` from the visit's outcome.
#[derive(Debug)]
pub struct VisitStatusUpdater<E> {
    /// Marker
    pub marker: PhantomData<E>,
}

impl<E> VisitStatusUpdater<E> {
    /// Updates the [`VisitStatus`]es for all stations, in order of their
    /// runtime identifiers.
    ///
    /// `ParentFail` transitions are propagated through to all later stations,
    /// on the condition that the nodes are added in order.
    pub fn update<C, V>(dest: &mut Destination<C, V, E>)
        ensures
            final(dest).specs() == old(dest).specs(),
            final(dest).statuses() == updated_statuses(old(dest).statuses(), old(dest).specs().parents()),
            final(dest).progresses().dom() == old(dest).progresses().dom(),
            forall|k: usize| #[trigger] final(dest).progresses().contains_key(k)
                ==> final(dest).progresses()[k].error == old(dest).progresses()[k].error,
    {
        let n = dest.station_specs().node_count();
        let ghost g = dest.specs().parents();
        let ghost start = dest.statuses();
        let mut i: usize = 0;
        while i < n
            invariant
                n == g.len(),
                i <= n,
                g == old(dest).specs().parents(),
                start == old(dest).statuses(),
                dest.specs() == old(dest).specs(),
                dest.statuses() == update_prefix(start, g, i as nat),
                dest.progresses().dom() == old(dest).progresses().dom(),
                forall|k: usize| #[trigger] dest.progresses().contains_key(k)
                    ==> dest.progresses()[k].error == old(dest).progresses()[k].error,
            decreases n - i,
        {
            let next = Self::visit_status_next(dest, i);
            match next {
                Some(s) => {
                    dest.set_visit_status(i, s);
                    assert(dest.statuses() =~= update_prefix(start, g, (i + 1) as nat));
                },
                None => {},
            }
            i += 1;
        }
    }

    /// Returns the [`VisitStatus`] that station `rt_id` is to be
    /// transitioned to, if any.
    pub fn visit_status_next<C, V>(dest: &Destination<C, V, E>, rt_id: StationRtId) -> (next:
        Option<VisitStatus>)
        ensures
            next == visit_status_next_spec(dest.statuses(), dest.specs().parents(), rt_id),
    {
        let n = dest.station_specs().node_count();
        if rt_id < n {
            match dest.station_progresses().visit_status(rt_id) {
                Some(VisitStatus::NotReady) => Self::transition_not_ready(dest, rt_id),
                _ => None,
            }
        } else {
            None
        }
    }

    fn transition_not_ready<C, V>(dest: &Destination<C, V, E>, rt_id: StationRtId) -> (next:
        Option<VisitStatus>)
        requires
            (rt_id as int) < dest.specs().parents().len(),
        ensures
            next == transition_not_ready_spec(
                dest.statuses(),
                dest.specs().parents()[rt_id as int],
            ),
    {
        let parents = dest.station_specs().parents_of(rt_id);
        let ghost st = dest.statuses();
        let mut any_failed = false;
        let mut all_done = true;
        let mut j: usize = 0;
        while j < parents.len()
            invariant
                j <= parents@.len(),
                st == dest.statuses(),
                parents@ == dest.specs().parents()[rt_id as int],
                any_failed == some_parent_failed(st, parents@.take(j as int)),
                all_done == all_parents_done(st, parents@.take(j as int)),
            decreases parents@.len() - j,
        {
            let ghost prev = parents@.take(j as int);
            let ghost next = parents@.take(j + 1);
            assert(next =~= prev.push(parents@[j as int]));
            match dest.station_progresses().visit_status(parents[j]) {
                None => {},
                Some(VisitStatus::VisitSuccess) | Some(VisitStatus::VisitUnnecessary) => {},
                Some(VisitStatus::VisitFail)
                | Some(VisitStatus::CheckFail)
                | Some(VisitStatus::ParentFail) => {
                    any_failed = true;
                    all_done = false;
                },
                Some(_) => {
                    all_done = false;
                },
            }
            proof {
                if any_failed && !some_parent_failed(st, prev) {
                    assert(next[j as int] == parents@[j as int]);
                }
                if some_parent_failed(st, next) && !some_parent_failed(st, prev) {
                    let a = choose|a: int|
                        0 <= a < next.len() && st.contains_key(#[trigger] next[a]) && parent_failed(
                            st[next[a]],
                        );
                    if a < j {
                        assert(prev[a] == next[a]);
                    }
                }
                if !all_done && all_parents_done(st, prev) {
                    assert(next[j as int] == parents@[j as int]);
                }
                if all_done {
                    assert forall|a: int|
                        0 <= a < next.len() && st.contains_key(#[trigger] next[a]) implies parent_done(
                        st[next[a]],
                    ) by {
                        if a < j {
                            assert(prev[a] == next[a]);
                        }
                    }
                }
            }
            j += 1;
        }
        assert(parents@.take(j as int) =~= parents@);
        if any_failed {
            Some(VisitStatus::ParentFail)
        } else if all_done {
            Some(VisitStatus::Queued)
        } else {
            None
        }
    }
}

} // verus!
