use std::marker::PhantomData;

use vstd::prelude::*;

use crate::rt_model::{Destination, StationRtId, VisitStatus};

verus! {

/// The stations among `0 .. n` that are `Queued` and not in `excluded`, in
/// ascending order.
pub open spec fn queued_in_order(
    statuses: Map<usize, VisitStatus>,
    n: nat,
    excluded: Set<usize>,
) -> Seq<usize>
    decreases n,
{
    if n == 0 {
        Seq::empty()
    } else {
        let prev = queued_in_order(statuses, (n - 1) as nat, excluded);
        let k = (n - 1) as usize;
        if (n - 1) <= usize::MAX && statuses.contains_key(k) && statuses[k] == VisitStatus::Queued
            && !excluded.contains(k) {
            prev.push(k)
        } else {
            prev
        }
    }
}

/// Every element of `queued_in_order(statuses, n, excluded)` is a `Queued`
/// station below `n` outside `excluded`, and the elements ascend.
pub proof fn lemma_queued_in_order(statuses: Map<usize, VisitStatus>, n: nat, excluded: Set<usize>)
    ensures
        forall|i: int|
            0 <= i < queued_in_order(statuses, n, excluded).len() ==> {
                let k = #[trigger] queued_in_order(statuses, n, excluded)[i];
                &&& (k as int) < n
                &&& statuses.contains_key(k)
                &&& statuses[k] == VisitStatus::Queued
                &&& !excluded.contains(k)
            },
        forall|i: int, j: int|
            0 <= i < j < queued_in_order(statuses, n, excluded).len() ==> #[trigger] queued_in_order(
                statuses,
                n,
                excluded,
            )[i] < #[trigger] queued_in_order(statuses, n, excluded)[j],
    decreases n,
{
    if n > 0 {
        lemma_queued_in_order(statuses, (n - 1) as nat, excluded);
    }
}

/// The queue is complete: every station below `n` that is `Queued` and
/// not in `excluded` is in `queued_in_order(statuses, n, excluded)`, and
/// nothing else is; the stations come in ascending order, each once.
pub proof fn lemma_queued_in_order_complete(
    statuses: Map<usize, VisitStatus>,
    n: nat,
    excluded: Set<usize>,
)
    ensures
        forall|k: usize|
            (k as int) < n && statuses.contains_key(k) && statuses[k] == VisitStatus::Queued
                && !excluded.contains(k) <==> #[trigger] queued_in_order(statuses, n, excluded).contains(k),
        queued_in_order(statuses, n, excluded).no_duplicates(),
    decreases n,
{
    lemma_queued_in_order(statuses, n, excluded);
    let q = queued_in_order(statuses, n, excluded);
    if n > 0 {
        lemma_queued_in_order_complete(statuses, (n - 1) as nat, excluded);
        let prev = queued_in_order(statuses, (n - 1) as nat, excluded);
        assert forall|k: usize|
            (k as int) < n && statuses.contains_key(k) && statuses[k] == VisitStatus::Queued
                && !excluded.contains(k) implies #[trigger] q.contains(k) by {
            if (k as int) < n - 1 {
                assert(prev.contains(k));
                let i = choose|i: int| 0 <= i < prev.len() && prev[i] == k;
                assert(q.len() >= prev.len());
                assert(q[i] == prev[i]);
            } else {
                assert(k == (n - 1) as usize);
                assert(q == prev.push(k));
                assert(q[q.len() - 1] == k);
            }
        }
    }
    assert forall|k: usize| #[trigger] q.contains(k) implies (k as int) < n && statuses.contains_key(k)
        && statuses[k] == VisitStatus::Queued && !excluded.contains(k) by {
        let i = choose|i: int| 0 <= i < q.len() && q[i] == k;
        assert(q[i] == k);
    }
    assert forall|i: int, j: int| 0 <= i < q.len() && 0 <= j < q.len() && i != j implies q[i]
        != q[j] by {
        if i < j {
            assert(q[i] < q[j]);
        } else {
            assert(q[j] < q[i]);
        }
    }
}

/// Stations to process with integrity guarantees.
///
/// This means all stations are still checked and visited even though the
/// destination may already be reached at the beginning of the execution --
/// guaranteeing that if A depends on B, then when A is visited, we can be sure
/// that B has been successfully visited.
///
/// The visits themselves are run by the caller: each round visits the
/// stations returned by [`IntegrityStrat::stations_queued`], then updates the
/// visit statuses with `VisitStatusUpdater::update`, until no station is
/// queued.
#[derive(Debug)]
pub struct IntegrityStrat<E> {
    /// Marker.
    marker: PhantomData<E>,
}

impl<E> IntegrityStrat<E> {
    /// Returns the stations that are ready to be visited: those whose status
    /// is `Queued`, in order of their runtime identifiers.
    pub fn stations_queued<C, V>(dest: &Destination<C, V, E>) -> (queued: Vec<StationRtId>)
        ensures
            queued@ == queued_in_order(dest.statuses(), dest.specs().specs().len(), Set::empty()),
    {
        let n = dest.station_specs().node_count();
        let mut queued = Vec::new();
        let mut i: usize = 0;
        while i < n
            invariant
                i <= n,
                n == dest.specs().specs().len(),
                queued@ == queued_in_order(dest.statuses(), i as nat, Set::empty()),
            decreases n - i,
        {
            if dest.station_progresses().visit_status(i) == Some(VisitStatus::Queued) {
                queued.push(i);
            }
            i += 1;
        }
        queued
    }
}

} // verus!
