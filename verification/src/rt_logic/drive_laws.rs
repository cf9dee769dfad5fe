//! Laws of a whole drive: rounds in which every `Queued` station is visited
//! and the visit statuses are then updated, until nothing is left to visit.

use vstd::prelude::*;

use crate::rt_logic::visit_status_laws::{
    is_topologically_ordered, is_visit_outcome, lemma_not_ready_has_unsettled_parent,
    lemma_update_moves_only_not_ready, lemma_update_parent_fail_has_failed_parent,
    lemma_update_queues_only_after_parents_done,
};
use crate::rt_logic::visit_status_updater::{
    all_parents_done, parent_done, parent_failed, some_parent_failed, updated_statuses,
};
use crate::rt_model::dag::{is_walk, reaches};
use crate::rt_model::station_specs::{lemma_reaches_extend, lemma_reaches_self};
use crate::rt_model::VisitStatus;

verus! {

/// Whether a station with status `s` is settled: it has the outcome of its
/// visit, or a parent failed.
pub open spec fn is_settled(s: VisitStatus) -> bool {
    is_visit_outcome(s) || s == VisitStatus::ParentFail
}

/// Whether `s` records that the station's own check or visit failed.
pub open spec fn is_own_failure(s: VisitStatus) -> bool {
    s == VisitStatus::CheckFail || s == VisitStatus::VisitFail
}

/// The statuses after every `Queued` station has been visited, station `k`
/// with the outcome `outcome(k)`.
pub open spec fn visit_queued(
    statuses: Map<usize, VisitStatus>,
    outcome: spec_fn(usize) -> VisitStatus,
) -> Map<usize, VisitStatus> {
    Map::new(
        |k: usize| statuses.contains_key(k),
        |k: usize|
            if statuses[k] == VisitStatus::Queued {
                outcome(k)
            } else {
                statuses[k]
            },
    )
}

/// One round of a drive: every `Queued` station is visited, then the visit
/// statuses are updated.
pub open spec fn drive_round(
    statuses: Map<usize, VisitStatus>,
    g: Seq<Seq<usize>>,
    outcome: spec_fn(usize) -> VisitStatus,
) -> Map<usize, VisitStatus> {
    updated_statuses(visit_queued(statuses, outcome), g)
}

/// The statuses of a drive after `r` rounds: it starts with an update of
/// `init`.
pub open spec fn drive_rounds(
    init: Map<usize, VisitStatus>,
    g: Seq<Seq<usize>>,
    outcome: spec_fn(usize) -> VisitStatus,
    r: nat,
) -> Map<usize, VisitStatus>
    decreases r,
{
    if r == 0 {
        updated_statuses(init, g)
    } else {
        drive_round(drive_rounds(init, g, outcome, (r - 1) as nat), g, outcome)
    }
}

/// What holds of the statuses throughout a drive: every station has one, none
/// is `InProgress`, a `Queued` or visited station has every parent done, and
/// a `ParentFail` station has a failed parent.
pub open spec fn drive_inv(statuses: Map<usize, VisitStatus>, g: Seq<Seq<usize>>) -> bool {
    &&& forall|k: usize| statuses.contains_key(k) <==> (k as int) < g.len()
    &&& forall|k: usize| #[trigger] statuses.contains_key(k) ==> statuses[k] != VisitStatus::InProgress
    &&& forall|k: usize|
        #[trigger] statuses.contains_key(k) && (statuses[k] == VisitStatus::Queued || is_visit_outcome(
            statuses[k],
        )) ==> all_parents_done(statuses, g[k as int])
    &&& forall|k: usize|
        #[trigger] statuses.contains_key(k) && statuses[k] == VisitStatus::ParentFail
            ==> some_parent_failed(statuses, g[k as int])
}

/// An update pass keeps the drive's invariant.
proof fn lemma_update_keeps_inv(statuses: Map<usize, VisitStatus>, g: Seq<Seq<usize>>)
    requires
        drive_inv(statuses, g),
    ensures
        drive_inv(updated_statuses(statuses, g), g),
{
    let fin = updated_statuses(statuses, g);
    lemma_update_moves_only_not_ready(statuses, g);
    assert forall|k: usize| #[trigger] fin.contains_key(k) && (fin[k] == VisitStatus::Queued
        || is_visit_outcome(fin[k])) implies all_parents_done(fin, g[k as int]) by {
        if statuses[k] == VisitStatus::NotReady {
            lemma_update_queues_only_after_parents_done(statuses, g, k);
        } else {
            assert(all_parents_done(statuses, g[k as int]));
            assert forall|j: int|
                0 <= j < g[k as int].len() && fin.contains_key(
                    #[trigger] g[k as int][j],
                ) implies parent_done(fin[g[k as int][j]]) by {
                assert(statuses.contains_key(g[k as int][j]));
            }
        }
    }
    assert forall|k: usize| #[trigger] fin.contains_key(k) && fin[k]
        == VisitStatus::ParentFail implies some_parent_failed(fin, g[k as int]) by {
        if statuses[k] == VisitStatus::NotReady {
            lemma_update_parent_fail_has_failed_parent(statuses, g, k);
        } else {
            let j = choose|j: int|
                0 <= j < g[k as int].len() && statuses.contains_key(#[trigger] g[k as int][j])
                    && parent_failed(statuses[g[k as int][j]]);
            assert(fin.contains_key(g[k as int][j]));
        }
    }
}

/// Visiting the `Queued` stations keeps the drive's invariant.
proof fn lemma_visit_keeps_inv(
    statuses: Map<usize, VisitStatus>,
    g: Seq<Seq<usize>>,
    outcome: spec_fn(usize) -> VisitStatus,
)
    requires
        drive_inv(statuses, g),
        forall|k: usize| is_visit_outcome(#[trigger] outcome(k)),
    ensures
        drive_inv(visit_queued(statuses, outcome), g),
{
    let v = visit_queued(statuses, outcome);
    assert forall|k: usize| #[trigger] v.contains_key(k) && (v[k] == VisitStatus::Queued
        || is_visit_outcome(v[k])) implies all_parents_done(v, g[k as int]) by {
        assert(is_visit_outcome(outcome(k)));
        assert(all_parents_done(statuses, g[k as int]));
        assert forall|j: int|
            0 <= j < g[k as int].len() && v.contains_key(#[trigger] g[k as int][j]) implies parent_done(
            v[g[k as int][j]],
        ) by {
            assert(statuses.contains_key(g[k as int][j]));
        }
    }
    assert forall|k: usize| #[trigger] v.contains_key(k) && v[k]
        == VisitStatus::ParentFail implies some_parent_failed(v, g[k as int]) by {
        assert(is_visit_outcome(outcome(k)));
        let j = choose|j: int|
            0 <= j < g[k as int].len() && statuses.contains_key(#[trigger] g[k as int][j])
                && parent_failed(statuses[g[k as int][j]]);
        assert(v.contains_key(g[k as int][j]));
    }
}

/// The statuses that round `r` of a drive updates: the initial statuses, or
/// those after the visits of the round.
pub open spec fn drive_before_update(
    init: Map<usize, VisitStatus>,
    g: Seq<Seq<usize>>,
    outcome: spec_fn(usize) -> VisitStatus,
    r: nat,
) -> Map<usize, VisitStatus> {
    if r == 0 {
        init
    } else {
        visit_queued(drive_rounds(init, g, outcome, (r - 1) as nat), outcome)
    }
}

/// Whether `init` is the start of a drive over `g`: every station has
/// progress and waits for its parents.
pub open spec fn is_fresh_start(init: Map<usize, VisitStatus>, g: Seq<Seq<usize>>) -> bool {
    &&& forall|k: usize| init.contains_key(k) <==> (k as int) < g.len()
    &&& forall|k: usize| #[trigger] init.contains_key(k) ==> init[k] == VisitStatus::NotReady
}

/// The drive's invariant holds before and after every update of the drive.
proof fn lemma_drive_inv(
    init: Map<usize, VisitStatus>,
    g: Seq<Seq<usize>>,
    outcome: spec_fn(usize) -> VisitStatus,
    r: nat,
)
    requires
        is_fresh_start(init, g),
        forall|k: usize| is_visit_outcome(#[trigger] outcome(k)),
    ensures
        drive_inv(drive_before_update(init, g, outcome, r), g),
        drive_inv(drive_rounds(init, g, outcome, r), g),
        drive_rounds(init, g, outcome, r) == updated_statuses(
            drive_before_update(init, g, outcome, r),
            g,
        ),
    decreases r,
{
    if r == 0 {
        assert(drive_inv(init, g));
    } else {
        lemma_drive_inv(init, g, outcome, (r - 1) as nat);
        lemma_visit_keeps_inv(drive_rounds(init, g, outcome, (r - 1) as nat), g, outcome);
    }
    lemma_update_keeps_inv(drive_before_update(init, g, outcome, r), g);
}

/// A settled station keeps its status through a round; a `Queued` one gets
/// its outcome.
proof fn lemma_round_step(
    statuses: Map<usize, VisitStatus>,
    g: Seq<Seq<usize>>,
    outcome: spec_fn(usize) -> VisitStatus,
    k: usize,
)
    requires
        drive_inv(statuses, g),
        forall|i: usize| is_visit_outcome(#[trigger] outcome(i)),
        statuses.contains_key(k),
    ensures
        drive_round(statuses, g, outcome).contains_key(k),
        is_settled(statuses[k]) ==> drive_round(statuses, g, outcome)[k] == statuses[k],
        statuses[k] == VisitStatus::Queued ==> drive_round(statuses, g, outcome)[k] == outcome(k),
{
    let v = visit_queued(statuses, outcome);
    assert(is_visit_outcome(outcome(k)));
    lemma_update_moves_only_not_ready(v, g);
}

/// Once settled, a station keeps its status for the rest of the drive.
proof fn lemma_settled_stays(
    init: Map<usize, VisitStatus>,
    g: Seq<Seq<usize>>,
    outcome: spec_fn(usize) -> VisitStatus,
    k: usize,
    r1: nat,
    r2: nat,
)
    requires
        is_fresh_start(init, g),
        forall|i: usize| is_visit_outcome(#[trigger] outcome(i)),
        r1 <= r2,
        drive_rounds(init, g, outcome, r1).contains_key(k),
        is_settled(drive_rounds(init, g, outcome, r1)[k]),
    ensures
        drive_rounds(init, g, outcome, r2).contains_key(k),
        drive_rounds(init, g, outcome, r2)[k] == drive_rounds(init, g, outcome, r1)[k],
    decreases r2 - r1,
{
    if r1 < r2 {
        lemma_settled_stays(init, g, outcome, k, r1, (r2 - 1) as nat);
        lemma_drive_inv(init, g, outcome, (r2 - 1) as nat);
        lemma_round_step(drive_rounds(init, g, outcome, (r2 - 1) as nat), g, outcome, k);
    }
}

/// After `r` rounds, stations `0 .. r` are settled.
proof fn lemma_settled_below(
    init: Map<usize, VisitStatus>,
    g: Seq<Seq<usize>>,
    outcome: spec_fn(usize) -> VisitStatus,
    r: nat,
)
    requires
        is_topologically_ordered(g),
        g.len() <= usize::MAX,
        is_fresh_start(init, g),
        forall|i: usize| is_visit_outcome(#[trigger] outcome(i)),
        r <= g.len(),
    ensures
        forall|k: usize|
            (k as int) < r ==> #[trigger] drive_rounds(init, g, outcome, r).contains_key(k)
                && is_settled(drive_rounds(init, g, outcome, r)[k]),
    decreases r,
{
    if r > 0 {
        let q = (r - 1) as nat;
        lemma_settled_below(init, g, outcome, q);
        lemma_drive_inv(init, g, outcome, q);
        let s = drive_rounds(init, g, outcome, q);
        let m = (r - 1) as usize;
        // Station `m` is not left `NotReady`: its parents are settled.
        assert(s.contains_key(m));
        if s[m] == VisitStatus::NotReady {
            lemma_not_ready_has_unsettled_parent(drive_before_update(init, g, outcome, q), g, m);
            let j = choose|j: int|
                0 <= j < g[m as int].len() && s.contains_key(#[trigger] g[m as int][j]) && !parent_done(
                    s[g[m as int][j]],
                ) && !parent_failed(s[g[m as int][j]]);
            let p = g[m as int][j];
            assert((p as int) < (m as int));
            assert(is_settled(s[p]));
            assert(false);
        }
        assert forall|k: usize| (k as int) < r implies #[trigger] drive_rounds(
            init,
            g,
            outcome,
            r,
        ).contains_key(k) && is_settled(drive_rounds(init, g, outcome, r)[k]) by {
            assert(drive_rounds(init, g, outcome, r) == drive_round(s, g, outcome));
            assert(s.contains_key(k));
            if (k as int) < (q as int) {
                assert(is_settled(s[k]));
            } else {
                assert(k == m);
                assert(s[k] != VisitStatus::InProgress);
            }
            lemma_round_step(s, g, outcome, k);
            assert(is_visit_outcome(outcome(k)));
        }
    }
}

/// In a settled drive, a `ParentFail` station has an earlier ancestor whose
/// own check or visit failed.
proof fn lemma_parent_fail_has_failed_ancestor(
    f: Map<usize, VisitStatus>,
    g: Seq<Seq<usize>>,
    k: usize,
)
    requires
        is_topologically_ordered(g),
        drive_inv(f, g),
        forall|i: usize| #[trigger] f.contains_key(i) ==> is_settled(f[i]),
        f.contains_key(k),
        f[k] == VisitStatus::ParentFail,
    ensures
        exists|a: usize| (a as int) < (k as int) && reaches(g, a, k) && is_own_failure(#[trigger] f[a]),
    decreases k,
{
    let j = choose|j: int|
        0 <= j < g[k as int].len() && f.contains_key(#[trigger] g[k as int][j]) && parent_failed(
            f[g[k as int][j]],
        );
    let p = g[k as int][j];
    assert((p as int) < (k as int));
    assert(g[k as int][j] == p);
    assert(g[k as int].contains(p));
    if is_own_failure(f[p]) {
        lemma_reaches_self(g, p);
        lemma_reaches_extend(g, p, p, k);
    } else {
        lemma_parent_fail_has_failed_ancestor(f, g, p);
        let a = choose|a: usize| (a as int) < (p as int) && reaches(g, a, p) && is_own_failure(#[trigger] f[a]);
        lemma_reaches_extend(g, a, p, k);
    }
}

/// In a settled drive, every station after the first along a walk from a
/// failed station is `ParentFail`.
proof fn lemma_walk_from_failure(f: Map<usize, VisitStatus>, g: Seq<Seq<usize>>, path: Seq<usize>)
    requires
        drive_inv(f, g),
        forall|i: usize| #[trigger] f.contains_key(i) ==> is_settled(f[i]),
        is_walk(g, path),
        path.len() >= 2,
        parent_failed(f[path[0]]),
    ensures
        f[path.last()] == VisitStatus::ParentFail,
    decreases path.len(),
{
    let prev = path.drop_last();
    assert(is_walk(g, prev));
    if prev.len() >= 2 {
        lemma_walk_from_failure(f, g, prev);
    }
    let x = path.last();
    let y = prev.last();
    assert(path[path.len() - 2] == y);
    assert(g[x as int].contains(y));
    assert(f.contains_key(x));
    assert(f.contains_key(y));
    assert(parent_failed(f[y]));
    if is_visit_outcome(f[x]) {
        assert(all_parents_done(f, g[x as int]));
        let j = choose|j: int| 0 <= j < g[x as int].len() && g[x as int][j] == y;
        assert(f.contains_key(g[x as int][j]));
        assert(parent_done(f[y]));
    }
}

/// A whole drive over stations added in dependency order, starting with
/// every station waiting for its parents, where each visited station gets
/// an outcome from its check or visit:
///
/// * after as many rounds as there are stations, every station is settled
///   (visited, found not to need a visit, failed, or with a failed parent),
///   so the next round finds nothing to visit and the drive ends;
/// * a station that is handed out for a visit ends with that visit's
///   outcome, and is never handed out again;
/// * a station ends `ParentFail` exactly when an ancestor's own check or
///   visit failed.
pub proof fn lemma_drive_reaches_destination(
    init: Map<usize, VisitStatus>,
    g: Seq<Seq<usize>>,
    outcome: spec_fn(usize) -> VisitStatus,
)
    requires
        is_topologically_ordered(g),
        g.len() <= usize::MAX,
        is_fresh_start(init, g),
        forall|k: usize| is_visit_outcome(#[trigger] outcome(k)),
    ensures
        forall|k: usize|
            (k as int) < g.len() ==> #[trigger] drive_rounds(init, g, outcome, g.len()).contains_key(k)
                && is_settled(drive_rounds(init, g, outcome, g.len())[k]),
        forall|k: usize, r1: nat, r2: nat|
            r1 < r2 && #[trigger] drive_rounds(init, g, outcome, r1).contains_key(k)
                && drive_rounds(init, g, outcome, r1)[k] == VisitStatus::Queued
                ==> #[trigger] drive_rounds(init, g, outcome, r2)[k] == outcome(k),
        forall|k: usize|
            #[trigger] drive_rounds(init, g, outcome, g.len()).contains_key(k) ==> (drive_rounds(
                init,
                g,
                outcome,
                g.len(),
            )[k] == VisitStatus::ParentFail <==> exists|a: usize|
                a != k && reaches(g, a, k) && is_own_failure(
                    #[trigger] drive_rounds(init, g, outcome, g.len())[a],
                )),
{
    let n = g.len();
    let f = drive_rounds(init, g, outcome, n);
    lemma_settled_below(init, g, outcome, n);
    lemma_drive_inv(init, g, outcome, n);
    assert forall|k: usize, r1: nat, r2: nat|
        r1 < r2 && #[trigger] drive_rounds(init, g, outcome, r1).contains_key(k)
            && drive_rounds(init, g, outcome, r1)[k] == VisitStatus::Queued implies #[trigger] drive_rounds(
        init,
        g,
        outcome,
        r2,
    )[k] == outcome(k) by {
        lemma_drive_inv(init, g, outcome, r1);
        lemma_round_step(drive_rounds(init, g, outcome, r1), g, outcome, k);
        assert(drive_rounds(init, g, outcome, r1 + 1) == drive_round(
            drive_rounds(init, g, outcome, r1),
            g,
            outcome,
        ));
        assert(is_visit_outcome(outcome(k)));
        lemma_settled_stays(init, g, outcome, k, r1 + 1, r2);
    }
    assert forall|i: usize| #[trigger] f.contains_key(i) implies is_settled(f[i]) by {
        assert((i as int) < n);
    }
    assert forall|k: usize| #[trigger] f.contains_key(k) implies (f[k] == VisitStatus::ParentFail
        <==> exists|a: usize| a != k && reaches(g, a, k) && is_own_failure(#[trigger] f[a])) by {
        if f[k] == VisitStatus::ParentFail {
            lemma_parent_fail_has_failed_ancestor(f, g, k);
            let a = choose|a: usize| (a as int) < (k as int) && reaches(g, a, k) && is_own_failure(#[trigger] f[a]);
            assert(a != k && reaches(g, a, k) && is_own_failure(f[a]));
        }
        if exists|a: usize| a != k && reaches(g, a, k) && is_own_failure(#[trigger] f[a]) {
            let a = choose|a: usize| a != k && reaches(g, a, k) && is_own_failure(#[trigger] f[a]);
            let path = choose|path: Seq<usize>| is_walk(g, path) && path[0] == a && path.last() == k;
            assert(path.len() >= 2);
            assert(f.contains_key(a));
            lemma_walk_from_failure(f, g, path);
        }
    }
}

} // verus!
