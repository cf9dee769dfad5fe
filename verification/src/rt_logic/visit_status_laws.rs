//! Laws of the visit status update: what one pass over the stations changes,
//! and what it guarantees about the stations it queues.

use vstd::prelude::*;

use crate::rt_logic::visit_status_updater::{
    all_parents_done, parent_done, parent_failed, some_parent_failed, transition_not_ready_spec,
    update_prefix, updated_statuses, visit_status_next_spec,
};
use crate::rt_model::VisitStatus;

verus! {

/// Whether every edge of `g` goes from a lower to a higher runtime
/// identifier, as when stations are added before the stations that depend on
/// them.
pub open spec fn is_topologically_ordered(g: Seq<Seq<usize>>) -> bool {
    forall|k: int, j: int|
        0 <= k < g.len() && 0 <= j < g[k].len() ==> (#[trigger] g[k][j] as int) < k
}

/// A `NotReady` station moves to `Queued` or `ParentFail`, or stays.
proof fn lemma_transition_result(statuses: Map<usize, VisitStatus>, parents: Seq<usize>)
    ensures
        transition_not_ready_spec(statuses, parents) is None
            || transition_not_ready_spec(statuses, parents) == Some(VisitStatus::Queued)
            || transition_not_ready_spec(statuses, parents) == Some(VisitStatus::ParentFail),
{
}

/// The transition of a station depends only on the statuses of its parents.
proof fn lemma_transition_local(
    m1: Map<usize, VisitStatus>,
    m2: Map<usize, VisitStatus>,
    parents: Seq<usize>,
)
    requires
        forall|j: int|
            0 <= j < parents.len() ==> (m1.contains_key(#[trigger] parents[j]) == m2.contains_key(
                parents[j],
            ) && (m1.contains_key(parents[j]) ==> m1[parents[j]] == m2[parents[j]])),
    ensures
        transition_not_ready_spec(m1, parents) == transition_not_ready_spec(m2, parents),
{
    assert(some_parent_failed(m1, parents) == some_parent_failed(m2, parents));
    assert(all_parents_done(m1, parents) == all_parents_done(m2, parents));
}

/// One step of the pass changes at most station `n - 1`, and only from
/// `NotReady` to `Queued` or `ParentFail`.
proof fn lemma_prefix_step(statuses: Map<usize, VisitStatus>, g: Seq<Seq<usize>>, n: nat)
    requires
        n > 0,
    ensures
        ({
            let prev = update_prefix(statuses, g, (n - 1) as nat);
            let cur = update_prefix(statuses, g, n);
            &&& cur.dom() == prev.dom()
            &&& forall|k: usize| #[trigger] cur.contains_key(k) && (k as int) != n - 1 ==> cur[k] == prev[k]
            &&& forall|k: usize|
                #[trigger] cur.contains_key(k) && prev[k] != VisitStatus::NotReady ==> cur[k] == prev[k]
            &&& forall|k: usize|
                #[trigger] cur.contains_key(k) && prev[k] == VisitStatus::NotReady ==> (cur[k]
                    == VisitStatus::NotReady || cur[k] == VisitStatus::Queued || cur[k]
                    == VisitStatus::ParentFail)
            &&& n - 1 <= usize::MAX ==> (visit_status_next_spec(prev, g, (n - 1) as usize) matches Some(s)
                ==> cur[(n - 1) as usize] == s && s != VisitStatus::NotReady)
            &&& n - 1 <= usize::MAX ==> (visit_status_next_spec(prev, g, (n - 1) as usize) is None
                ==> cur == prev)
        }),
{
    let prev = update_prefix(statuses, g, (n - 1) as nat);
    let i = n - 1;
    if i <= usize::MAX {
        let iu = i as usize;
        if (iu as int) < g.len() && prev.contains_key(iu) && prev[iu] == VisitStatus::NotReady {
            lemma_transition_result(prev, g[iu as int]);
        }
        match visit_status_next_spec(prev, g, iu) {
            Some(s) => {
                assert(update_prefix(statuses, g, n).dom() =~= prev.dom());
            },
            None => {},
        }
    }
}

/// Over several steps: the domain is kept, statuses other than `NotReady`
/// are kept, a `NotReady` status moves at most to `Queued` or `ParentFail`,
/// and only stations `m .. n` may change.
proof fn lemma_prefix_range(statuses: Map<usize, VisitStatus>, g: Seq<Seq<usize>>, m: nat, n: nat)
    requires
        m <= n,
    ensures
        ({
            let a = update_prefix(statuses, g, m);
            let b = update_prefix(statuses, g, n);
            &&& b.dom() == a.dom()
            &&& forall|k: usize|
                #[trigger] b.contains_key(k) && a[k] != VisitStatus::NotReady ==> b[k] == a[k]
            &&& forall|k: usize|
                #[trigger] b.contains_key(k) && a[k] == VisitStatus::NotReady ==> (b[k]
                    == VisitStatus::NotReady || b[k] == VisitStatus::Queued || b[k]
                    == VisitStatus::ParentFail)
            &&& forall|k: usize|
                #[trigger] b.contains_key(k) && !(m <= (k as int) < n) ==> b[k] == a[k]
        }),
    decreases n - m,
{
    if m < n {
        lemma_prefix_range(statuses, g, m, (n - 1) as nat);
        lemma_prefix_step(statuses, g, n);
    }
}

/// Once station `k` has been processed, later steps leave it as it is.
proof fn lemma_prefix_settled(
    statuses: Map<usize, VisitStatus>,
    g: Seq<Seq<usize>>,
    k: usize,
    m: nat,
    n: nat,
)
    requires
        (k as int) < (m as int),
        m <= n,
    ensures
        update_prefix(statuses, g, n).dom() == update_prefix(statuses, g, m).dom(),
        update_prefix(statuses, g, m).contains_key(k) ==> update_prefix(statuses, g, n)[k]
            == update_prefix(statuses, g, m)[k],
    decreases n - m,
{
    if m < n {
        lemma_prefix_settled(statuses, g, k, m, (n - 1) as nat);
        lemma_prefix_step(statuses, g, n);
    }
}

/// Stations that are not yet processed keep their initial status.
proof fn lemma_prefix_untouched(
    statuses: Map<usize, VisitStatus>,
    g: Seq<Seq<usize>>,
    k: usize,
    n: nat,
)
    requires
        (n as int) <= (k as int),
    ensures
        update_prefix(statuses, g, n).dom() == statuses.dom(),
        statuses.contains_key(k) ==> update_prefix(statuses, g, n)[k] == statuses[k],
    decreases n,
{
    if n > 0 {
        lemma_prefix_untouched(statuses, g, k, (n - 1) as nat);
        lemma_prefix_step(statuses, g, n);
    }
}

/// One update pass keeps the set of stations with progress, never changes a
/// station that is not `NotReady`, and moves a `NotReady` station only to
/// `Queued` or `ParentFail`.
pub proof fn lemma_update_moves_only_not_ready(statuses: Map<usize, VisitStatus>, g: Seq<Seq<usize>>)
    ensures
        updated_statuses(statuses, g).dom() == statuses.dom(),
        forall|k: usize|
            #[trigger] statuses.contains_key(k) && statuses[k] != VisitStatus::NotReady
                ==> updated_statuses(statuses, g)[k] == statuses[k],
        forall|k: usize|
            #[trigger] statuses.contains_key(k) && statuses[k] == VisitStatus::NotReady ==> (
            updated_statuses(statuses, g)[k] == VisitStatus::NotReady || updated_statuses(
                statuses,
                g,
            )[k] == VisitStatus::Queued || updated_statuses(statuses, g)[k]
                == VisitStatus::ParentFail),
{
    lemma_prefix_range(statuses, g, 0, g.len());
}

/// Whether `s` records the outcome of a visit.
pub open spec fn is_visit_outcome(s: VisitStatus) -> bool {
    s == VisitStatus::VisitSuccess || s == VisitStatus::VisitUnnecessary || s
        == VisitStatus::CheckFail || s == VisitStatus::VisitFail
}

/// A station whose visit has an outcome keeps it through every update: it
/// is never queued, and so never visited, again.
pub proof fn lemma_update_keeps_visit_outcomes(
    statuses: Map<usize, VisitStatus>,
    g: Seq<Seq<usize>>,
    k: usize,
)
    requires
        statuses.contains_key(k),
        is_visit_outcome(statuses[k]),
    ensures
        updated_statuses(statuses, g).contains_key(k),
        updated_statuses(statuses, g)[k] == statuses[k],
{
    lemma_update_moves_only_not_ready(statuses, g);
}

/// Integrity: a station that the update queues has every parent with
/// progress visited successfully or found not to need a visit, so when it
/// is visited its dependencies are in their desired state.
pub proof fn lemma_update_queues_only_after_parents_done(
    statuses: Map<usize, VisitStatus>,
    g: Seq<Seq<usize>>,
    k: usize,
)
    requires
        statuses.contains_key(k),
        statuses[k] == VisitStatus::NotReady,
        updated_statuses(statuses, g)[k] == VisitStatus::Queued,
    ensures
        (k as int) < g.len(),
        forall|j: int|
            0 <= j < g[k as int].len() && updated_statuses(statuses, g).contains_key(
                #[trigger] g[k as int][j],
            ) ==> parent_done(updated_statuses(statuses, g)[g[k as int][j]]),
{
    let fin = updated_statuses(statuses, g);
    if (k as int) >= g.len() {
        lemma_prefix_untouched(statuses, g, k, g.len());
    }
    let before = update_prefix(statuses, g, k as nat);
    let after = update_prefix(statuses, g, (k + 1) as nat);
    lemma_prefix_untouched(statuses, g, k, k as nat);
    lemma_prefix_settled(statuses, g, k, (k + 1) as nat, g.len());
    assert(visit_status_next_spec(before, g, k) == Some(VisitStatus::Queued));
    assert(all_parents_done(before, g[k as int]));
    lemma_prefix_range(statuses, g, k as nat, g.len());
    assert forall|j: int|
        0 <= j < g[k as int].len() && fin.contains_key(#[trigger] g[k as int][j]) implies parent_done(
        fin[g[k as int][j]],
    ) by {
        let p = g[k as int][j];
        assert(before.contains_key(p));
        assert(parent_done(before[p]));
    }
}

/// A station that the update marks `ParentFail` has a parent with progress
/// whose visit failed, whose check failed, or whose own parent failed.
pub proof fn lemma_update_parent_fail_has_failed_parent(
    statuses: Map<usize, VisitStatus>,
    g: Seq<Seq<usize>>,
    k: usize,
)
    requires
        statuses.contains_key(k),
        statuses[k] == VisitStatus::NotReady,
        updated_statuses(statuses, g)[k] == VisitStatus::ParentFail,
    ensures
        (k as int) < g.len(),
        exists|j: int|
            0 <= j < g[k as int].len() && updated_statuses(statuses, g).contains_key(
                #[trigger] g[k as int][j],
            ) && parent_failed(updated_statuses(statuses, g)[g[k as int][j]]),
{
    let fin = updated_statuses(statuses, g);
    if (k as int) >= g.len() {
        lemma_prefix_untouched(statuses, g, k, g.len());
    }
    let before = update_prefix(statuses, g, k as nat);
    lemma_prefix_untouched(statuses, g, k, k as nat);
    lemma_prefix_settled(statuses, g, k, (k + 1) as nat, g.len());
    assert(visit_status_next_spec(before, g, k) == Some(VisitStatus::ParentFail));
    assert(some_parent_failed(before, g[k as int]));
    let j = choose|j: int|
        0 <= j < g[k as int].len() && before.contains_key(#[trigger] g[k as int][j])
            && parent_failed(before[g[k as int][j]]);
    lemma_prefix_range(statuses, g, k as nat, g.len());
    assert(fin.contains_key(g[k as int][j]));
}

/// When stations are ordered so that every parent comes before its
/// children, one update pass reaches a fixed point: `ParentFail` and
/// `Queued` transitions have propagated through all later stations, and a
/// second pass changes nothing.
pub proof fn lemma_update_idempotent_when_ordered(statuses: Map<usize, VisitStatus>, g: Seq<Seq<usize>>)
    requires
        is_topologically_ordered(g),
    ensures
        updated_statuses(updated_statuses(statuses, g), g) == updated_statuses(statuses, g),
{
    lemma_prefix_range(statuses, g, 0, g.len());
    lemma_second_pass_identity(statuses, g, g.len());
}

/// In the second pass, every prefix leaves the result of the first pass
/// unchanged.
proof fn lemma_second_pass_identity(statuses: Map<usize, VisitStatus>, g: Seq<Seq<usize>>, n: nat)
    requires
        is_topologically_ordered(g),
        n <= g.len(),
    ensures
        update_prefix(updated_statuses(statuses, g), g, n) == updated_statuses(statuses, g),
    decreases n,
{
    let fin = updated_statuses(statuses, g);
    if n > 0 {
        lemma_second_pass_identity(statuses, g, (n - 1) as nat);
        if n - 1 <= usize::MAX && fin.contains_key((n - 1) as usize) && fin[(n - 1) as usize]
            == VisitStatus::NotReady {
            let i = (n - 1) as usize;
            let before = update_prefix(statuses, g, i as nat);
            lemma_prefix_settled(statuses, g, i, (i + 1) as nat, g.len());
            lemma_prefix_untouched(statuses, g, i, i as nat);
            lemma_prefix_step(statuses, g, (i + 1) as nat);
            // Station `i` was `NotReady` when it was processed, and stayed so.
            assert(before.contains_key(i));
            if before[i] != VisitStatus::NotReady {
                assert(update_prefix(statuses, g, (i + 1) as nat)[i] == before[i]);
            }
            assert(before[i] == VisitStatus::NotReady);
            assert(visit_status_next_spec(before, g, i) is None);
            // Its parents all come before it, so they were settled then.
            assert forall|j: int| 0 <= j < g[i as int].len() implies (fin.contains_key(
                #[trigger] g[i as int][j],
            ) == before.contains_key(g[i as int][j]) && (fin.contains_key(g[i as int][j])
                ==> fin[g[i as int][j]] == before[g[i as int][j]])) by {
                let p = g[i as int][j];
                assert((p as int) < (i as int));
                lemma_prefix_settled(statuses, g, p, i as nat, g.len());
            }
            lemma_transition_local(fin, before, g[i as int]);
        }
        lemma_prefix_range(statuses, g, 0, g.len());
    }
}

/// A station that one update pass leaves `NotReady` has a parent with
/// progress that the pass leaves neither done nor failed, when every parent
/// comes before its children and every station has progress.
pub(crate) proof fn lemma_not_ready_has_unsettled_parent(
    statuses: Map<usize, VisitStatus>,
    g: Seq<Seq<usize>>,
    k: usize,
)
    requires
        is_topologically_ordered(g),
        forall|i: usize| statuses.contains_key(i) <==> (i as int) < g.len(),
        updated_statuses(statuses, g).contains_key(k),
        updated_statuses(statuses, g)[k] == VisitStatus::NotReady,
    ensures
        (k as int) < g.len(),
        exists|j: int|
            0 <= j < g[k as int].len() && updated_statuses(statuses, g).contains_key(
                #[trigger] g[k as int][j],
            ) && !parent_done(updated_statuses(statuses, g)[g[k as int][j]]) && !parent_failed(
                updated_statuses(statuses, g)[g[k as int][j]],
            ),
{
    let fin = updated_statuses(statuses, g);
    lemma_prefix_range(statuses, g, 0, g.len());
    assert(statuses.contains_key(k));
    let before = update_prefix(statuses, g, k as nat);
    lemma_prefix_untouched(statuses, g, k, k as nat);
    lemma_prefix_settled(statuses, g, k, (k + 1) as nat, g.len());
    lemma_prefix_step(statuses, g, (k + 1) as nat);
    // Station `k` was `NotReady` at its turn and did not move.
    assert(before.contains_key(k));
    if before[k] != VisitStatus::NotReady {
        assert(update_prefix(statuses, g, (k + 1) as nat)[k] == before[k]);
    }
    assert(visit_status_next_spec(before, g, k) is None);
    assert(!some_parent_failed(before, g[k as int]));
    assert(!all_parents_done(before, g[k as int]));
    // So some parent with progress was neither done nor failed.
    let j = choose|j: int|
        0 <= j < g[k as int].len() && before.contains_key(#[trigger] g[k as int][j])
            && !parent_done(before[g[k as int][j]]);
    let p = g[k as int][j];
    assert((p as int) < (k as int));
    assert(!parent_failed(before[p]));
    // That parent was settled before `k`'s turn: it keeps its status.
    lemma_prefix_settled(statuses, g, p, k as nat, g.len());
    assert(fin.contains_key(p));
    assert(fin[p] == before[p]);
}

/// Below `n`, no station is left `NotReady` by the pass, under the
/// conditions of [`lemma_update_leaves_no_station_not_ready`].
proof fn lemma_no_not_ready_below(statuses: Map<usize, VisitStatus>, g: Seq<Seq<usize>>, n: nat)
    requires
        is_topologically_ordered(g),
        forall|k: usize| statuses.contains_key(k) <==> (k as int) < g.len(),
        forall|k: usize| #[trigger]
            updated_statuses(statuses, g).contains_key(k) ==> updated_statuses(statuses, g)[k]
                != VisitStatus::Queued && updated_statuses(statuses, g)[k] != VisitStatus::InProgress,
        n <= g.len(),
    ensures
        forall|k: usize|
            (k as int) < n && #[trigger] updated_statuses(statuses, g).contains_key(k)
                ==> updated_statuses(statuses, g)[k] != VisitStatus::NotReady,
    decreases n,
{
    if n > 0 {
        lemma_no_not_ready_below(statuses, g, (n - 1) as nat);
        let fin = updated_statuses(statuses, g);
        lemma_prefix_range(statuses, g, 0, g.len());
        if n - 1 <= usize::MAX {
            let k = (n - 1) as usize;
            if fin.contains_key(k) && fin[k] == VisitStatus::NotReady {
                lemma_not_ready_has_unsettled_parent(statuses, g, k);
                let j = choose|j: int|
                    0 <= j < g[k as int].len() && fin.contains_key(#[trigger] g[k as int][j])
                        && !parent_done(fin[g[k as int][j]]) && !parent_failed(fin[g[k as int][j]]);
                let p = g[k as int][j];
                assert((p as int) < (k as int));
                assert(false);
            }
        }
    }
}

/// Every station reaches the destination: when stations are ordered so that
/// every parent comes before its children, every station has progress, and
/// after an update pass no station is `Queued` or `InProgress` (nothing is
/// left to visit), then no station is left `NotReady` either: each has been
/// visited, found not to need a visit, failed, or has a failed parent.
pub proof fn lemma_update_leaves_no_station_not_ready(
    statuses: Map<usize, VisitStatus>,
    g: Seq<Seq<usize>>,
)
    requires
        is_topologically_ordered(g),
        forall|k: usize| statuses.contains_key(k) <==> (k as int) < g.len(),
    ensures
        (forall|k: usize| #[trigger]
            updated_statuses(statuses, g).contains_key(k) ==> updated_statuses(statuses, g)[k]
                != VisitStatus::Queued && updated_statuses(statuses, g)[k]
                != VisitStatus::InProgress) ==> (forall|k: usize| #[trigger]
            updated_statuses(statuses, g).contains_key(k) ==> updated_statuses(statuses, g)[k]
                != VisitStatus::NotReady),
{
    let fin = updated_statuses(statuses, g);
    if forall|k: usize| #[trigger]
        fin.contains_key(k) ==> fin[k] != VisitStatus::Queued && fin[k] != VisitStatus::InProgress {
        lemma_no_not_ready_below(statuses, g, g.len());
        lemma_prefix_range(statuses, g, 0, g.len());
        assert forall|k: usize| #[trigger] fin.contains_key(k) implies fin[k] != VisitStatus::NotReady by {
            assert(statuses.contains_key(k));
        }
    }
}

} // verus!
