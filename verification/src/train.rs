use vstd::prelude::*;

use crate::cfg_model::StationProgress;
use crate::rt_model::{Destination, EnsureOutcomeErr, EnsureOutcomeOk, TrainReport, VisitStatus};

verus! {

/// The visit status that a station gets from the outcome of ensuring it.
pub open spec fn status_after_outcome<E>(outcome: Result<EnsureOutcomeOk, EnsureOutcomeErr<E>>) -> VisitStatus {
    match outcome {
        Ok(EnsureOutcomeOk::Changed) => VisitStatus::VisitSuccess,
        Ok(EnsureOutcomeOk::Unchanged) => VisitStatus::VisitUnnecessary,
        Err(EnsureOutcomeErr::CheckFail(_)) => VisitStatus::CheckFail,
        Err(EnsureOutcomeErr::VisitFail(_)) => VisitStatus::VisitFail,
    }
}

/// The errors held by the progress of stations `0 .. n`, in order of their
/// runtime identifiers.
pub open spec fn errors_in_order<E>(m: Map<usize, StationProgress<E>>, n: nat) -> Seq<(usize, E)>
    decreases n,
{
    if n == 0 {
        Seq::empty()
    } else {
        let prev = errors_in_order(m, (n - 1) as nat);
        let k = (n - 1) as usize;
        if (n - 1) <= usize::MAX && m.contains_key(k) && m[k].error is Some {
            prev.push((k, m[k].error->Some_0))
        } else {
            prev
        }
    }
}

/// No error is lost or made up: `errors_in_order(m, n)` holds `(k, e)`
/// exactly when station `k` is below `n` and its progress holds the error
/// `e`; the stations come in ascending order, each once.
pub proof fn lemma_errors_in_order_complete<E>(m: Map<usize, StationProgress<E>>, n: nat)
    ensures
        forall|k: usize, e: E|
            (k as int) < n && m.contains_key(k) && m[k].error == Some(e) <==> #[trigger] errors_in_order(
                m,
                n,
            ).contains((k, e)),
        forall|i: int, j: int|
            0 <= i < j < errors_in_order(m, n).len() ==> (#[trigger] errors_in_order(m, n)[i]).0
                < (#[trigger] errors_in_order(m, n)[j]).0,
    decreases n,
{
    let x = errors_in_order(m, n);
    if n > 0 {
        lemma_errors_in_order_complete(m, (n - 1) as nat);
        let prev = errors_in_order(m, (n - 1) as nat);
        let k0 = (n - 1) as usize;
        assert(x == prev || ((n - 1) <= usize::MAX && m.contains_key(k0) && m[k0].error is Some
            && x == prev.push((k0, m[k0].error->Some_0))));
        assert forall|k: usize, e: E|
            (k as int) < n && m.contains_key(k) && m[k].error == Some(e) implies #[trigger] x.contains(
            (k, e),
        ) by {
            if (k as int) < n - 1 {
                assert(prev.contains((k, e)));
                let i = choose|i: int| 0 <= i < prev.len() && prev[i] == (k, e);
                assert(x[i] == prev[i]);
            } else {
                assert(x[x.len() - 1] == (k, e));
            }
        }
        assert forall|k: usize, e: E| #[trigger] x.contains((k, e)) implies (k as int) < n
            && m.contains_key(k) && m[k].error == Some(e) by {
            let i = choose|i: int| 0 <= i < x.len() && x[i] == (k, e);
            if i < prev.len() {
                assert(prev[i] == (k, e));
                assert(prev.contains((k, e)));
            }
        }
        assert forall|i: int, j: int| 0 <= i < j < x.len() implies (#[trigger] x[i]).0 < (
        #[trigger] x[j]).0 by {
            if j < prev.len() {
                assert(x[i] == prev[i] && x[j] == prev[j]);
            } else {
                assert(x[i] == prev[i]);
                let (ki, ei) = prev[i];
                assert(prev[i] == (ki, ei));
                assert(prev.contains((ki, ei)));
                assert((ki as int) < n - 1);
                assert(x == prev.push(x[j]));
                assert(x[j].0 == (n - 1) as usize);
            }
        }
    }
}

/// The progress map with every error taken out of the stations `0 .. n`.
pub open spec fn errors_taken<E>(m: Map<usize, StationProgress<E>>, n: nat) -> Map<usize, StationProgress<E>> {
    Map::new(
        |k: usize| m.contains_key(k),
        |k: usize|
            if (k as int) < n {
                StationProgress { visit_status: m[k].visit_status, error: None }
            } else {
                m[k]
            },
    )
}

/// Ensures all carriages are at the destination.
///
/// Driving the train awaits the stations' check and visit functions, which
/// the caller runs; the train decides what each station's status becomes and
/// what the report holds.
#[derive(Debug)]
pub struct Train;

impl Train {
    /// Records the outcome of ensuring a station in its progress:
    ///
    /// * `Changed` sets `VisitSuccess`, `Unchanged` sets `VisitUnnecessary`;
    /// * `CheckFail(e)` and `VisitFail(e)` store `e` as the station's error
    ///   and set `CheckFail` or `VisitFail`.
    pub fn record_outcome<E>(
        station_progress: &mut StationProgress<E>,
        outcome: Result<EnsureOutcomeOk, EnsureOutcomeErr<E>>,
    )
        ensures
            final(station_progress).visit_status == status_after_outcome(outcome),
            final(station_progress).error == (match outcome {
                Ok(_) => old(station_progress).error,
                Err(EnsureOutcomeErr::CheckFail(e)) => Some(e),
                Err(EnsureOutcomeErr::VisitFail(e)) => Some(e),
            }),
    {
        match outcome {
            Ok(EnsureOutcomeOk::Changed) => {
                station_progress.visit_status = VisitStatus::VisitSuccess;
            },
            Ok(EnsureOutcomeOk::Unchanged) => {
                station_progress.visit_status = VisitStatus::VisitUnnecessary;
            },
            Err(EnsureOutcomeErr::CheckFail(e)) => {
                station_progress.error = Some(e);
                station_progress.visit_status = VisitStatus::CheckFail;
            },
            Err(EnsureOutcomeErr::VisitFail(e)) => {
                station_progress.error = Some(e);
                station_progress.visit_status = VisitStatus::VisitFail;
            },
        }
    }

    /// Moves the error of every station into the report, in order of the
    /// stations' runtime identifiers; the stations are left without error.
    pub fn collect_errors<C, V, E>(dest: &mut Destination<C, V, E>, train_report: &mut TrainReport<E>)
        ensures
            final(dest).specs() == old(dest).specs(),
            final(train_report).errors@ == old(train_report).errors@ + errors_in_order(
                old(dest).progresses(),
                old(dest).specs().specs().len(),
            ),
            final(dest).progresses() == errors_taken(
                old(dest).progresses(),
                old(dest).specs().specs().len(),
            ),
    {
        let n = dest.station_specs().node_count();
        let ghost m = dest.progresses();
        let ghost start = train_report.errors@;
        let mut i: usize = 0;
        assert(errors_taken(m, 0) =~= m);
        while i < n
            invariant
                i <= n,
                n == old(dest).specs().specs().len(),
                m == old(dest).progresses(),
                start == old(train_report).errors@,
                dest.specs() == old(dest).specs(),
                train_report.errors@ == start + errors_in_order(m, i as nat),
                dest.progresses() == errors_taken(m, i as nat),
            decreases n - i,
        {
            if dest.station_progresses().contains_key(i) {
                let error = dest.station_progresses_mut().replace_error(i, None);
                match error {
                    Some(e) => {
                        train_report.errors.push((i, e));
                    },
                    None => {},
                }
            }
            assert(dest.progresses() =~= errors_taken(m, (i + 1) as nat));
            assert(train_report.errors@ =~= start + errors_in_order(m, (i + 1) as nat));
            i += 1;
        }
    }
}

} // verus!
