use std::marker::PhantomData;

use vstd::prelude::*;
use vstd::std_specs::convert::FromSpec;

use crate::cfg_model::{CheckStatus, StationProgress, StationSpec};
use crate::rt_model::error::StationSpecError;
use crate::rt_model::{EnsureOutcomeErr, EnsureOutcomeOk};

verus! {

/// Where the driver stands while it ensures one station.
#[derive(Clone, Copy, Debug, PartialEq, Eq, Structural)]
pub enum EnsureState {
    /// Waiting for the result of the check that runs before the visit.
    CheckingBeforeVisit,
    /// Waiting for the result of the visit.
    Visiting,
    /// Waiting for the result of the check that runs after the visit.
    CheckingAfterVisit,
    /// The station has been ensured.
    Done,
}

/// What the driver asks its caller to do next.
#[derive(Debug, PartialEq)]
pub enum EnsureAction<E> {
    /// Run the station's check function and report its result.
    RunCheck,
    /// Run the station's visit function and report its result.
    RunVisit,
    /// The station has been ensured, with this outcome.
    Finish(Result<EnsureOutcomeOk, EnsureOutcomeErr<E>>),
}

/// The result of the work that the driver asked for.
#[derive(Debug, PartialEq)]
pub enum EnsureEvent<E> {
    /// The check function returned.
    Checked(Result<CheckStatus, E>),
    /// The visit function returned.
    Visited(Result<(), E>),
}

/// Whether `event` answers the work that `state` waits for.
pub open spec fn event_fits<E>(state: EnsureState, event: EnsureEvent<E>) -> bool {
    match state {
        EnsureState::CheckingBeforeVisit | EnsureState::CheckingAfterVisit => event is Checked,
        EnsureState::Visiting => event is Visited,
        EnsureState::Done => false,
    }
}

/// How the driver starts: check first when there is a check function,
/// otherwise visit.
pub open spec fn ensure_start_spec<E>(has_check_fn: bool) -> (EnsureState, EnsureAction<E>) {
    if has_check_fn {
        (EnsureState::CheckingBeforeVisit, EnsureAction::RunCheck)
    } else {
        (EnsureState::Visiting, EnsureAction::RunVisit)
    }
}

/// The driver's transition on `event` in `state`.
pub open spec fn ensure_step_spec<E>(
    has_check_fn: bool,
    state: EnsureState,
    event: EnsureEvent<E>,
) -> (EnsureState, EnsureAction<E>) {
    match (state, event) {
        (EnsureState::CheckingBeforeVisit, EnsureEvent::Checked(Err(e))) => (
            EnsureState::Done,
            EnsureAction::Finish(Err(EnsureOutcomeErr::CheckFail(e))),
        ),
        (EnsureState::CheckingBeforeVisit, EnsureEvent::Checked(Ok(CheckStatus::VisitRequired))) => (
            EnsureState::Visiting,
            EnsureAction::RunVisit,
        ),
        (
            EnsureState::CheckingBeforeVisit,
            EnsureEvent::Checked(Ok(CheckStatus::VisitNotRequired)),
        ) => (EnsureState::Done, EnsureAction::Finish(Ok(EnsureOutcomeOk::Unchanged))),
        (EnsureState::Visiting, EnsureEvent::Visited(Err(e))) => (
            EnsureState::Done,
            EnsureAction::Finish(Err(EnsureOutcomeErr::VisitFail(e))),
        ),
        (EnsureState::Visiting, EnsureEvent::Visited(Ok(()))) => if has_check_fn {
            (EnsureState::CheckingAfterVisit, EnsureAction::RunCheck)
        } else {
            (EnsureState::Done, EnsureAction::Finish(Ok(EnsureOutcomeOk::Changed)))
        },
        (EnsureState::CheckingAfterVisit, EnsureEvent::Checked(Err(e))) => (
            EnsureState::Done,
            EnsureAction::Finish(Err(EnsureOutcomeErr::CheckFail(e))),
        ),
        (EnsureState::CheckingAfterVisit, EnsureEvent::Checked(Ok(_))) => (
            EnsureState::Done,
            EnsureAction::Finish(Ok(EnsureOutcomeOk::Changed)),
        ),
        _ => (state, EnsureAction::RunCheck),
    }
}

/// Whether the driver records a station spec error on `event` in `state`:
/// the check that runs after the visit still reports that a visit is
/// required.
pub open spec fn records_spec_error<E>(state: EnsureState, event: EnsureEvent<E>) -> bool {
    state == EnsureState::CheckingAfterVisit && event == EnsureEvent::<E>::Checked(
        Ok(CheckStatus::VisitRequired),
    )
}

/// Logic that determines whether or not to visit a station.
///
/// The algorithm is as follows:
///
/// 1. Check whether the station is already in the desired state.
/// 2. If it is, return `Ok`.
/// 3. If it isn't, run the visit function.
/// 4. If it fails, return the error.
/// 5. If it succeeds, check that the station is in the desired state.
/// 6. If it isn't, store this as an error to return to the caller.
/// 7. Return `Ok`.
///
/// The check and visit functions are run by the caller: [`Driver::start`]
/// and [`Driver::next`] say what to run next, and the caller reports each
/// result back.
#[derive(Debug)]
pub struct Driver<E> {
    /// Marker.
    marker: PhantomData<E>,
}

impl<E> Driver<E> {
    /// Starts ensuring `station_spec`: returns the first state and the work
    /// to do.
    pub fn start<C, V>(station_spec: &StationSpec<C, V>) -> (start: (EnsureState, EnsureAction<E>))
        ensures
            start == ensure_start_spec::<E>(station_spec.spec_has_check_fn()),
    {
        if station_spec.has_check_fn() {
            (EnsureState::CheckingBeforeVisit, EnsureAction::RunCheck)
        } else {
            (EnsureState::Visiting, EnsureAction::RunVisit)
        }
    }

    /// Returns whether `event` answers the work that `state` waits for, as
    /// [`Driver::next`] requires.
    pub fn fits(state: EnsureState, event: &EnsureEvent<E>) -> (fits: bool)
        ensures
            fits == event_fits(state, *event),
    {
        match state {
            EnsureState::CheckingBeforeVisit | EnsureState::CheckingAfterVisit => match event {
                EnsureEvent::Checked(_) => true,
                EnsureEvent::Visited(_) => false,
            },
            EnsureState::Visiting => match event {
                EnsureEvent::Checked(_) => false,
                EnsureEvent::Visited(_) => true,
            },
            EnsureState::Done => false,
        }
    }

    /// Processes the result of the work asked for in `state`: returns the
    /// next state and the next work. When the check that runs after the
    /// visit still reports that a visit is required, the station's progress
    /// gets a `StationSpecError::VisitRequiredAfterVisit` error, converted
    /// into `E`.
    pub fn next<C, V>(
        station_spec: &StationSpec<C, V>,
        station_progress: &mut StationProgress<E>,
        state: EnsureState,
        event: EnsureEvent<E>,
    ) -> (next: (EnsureState, EnsureAction<E>))
        where E: From<StationSpecError>
        requires
            event_fits(state, event),
        ensures
            next == ensure_step_spec(station_spec.spec_has_check_fn(), state, event),
            final(station_progress).visit_status == old(station_progress).visit_status,
            !records_spec_error(state, event) ==> final(station_progress).error
                == old(station_progress).error,
            records_spec_error(state, event) ==> final(station_progress).error is Some,
            records_spec_error(state, event) && E::obeys_from_spec()
                ==> final(station_progress).error == Some(
                E::from_spec(
                    StationSpecError::VisitRequiredAfterVisit {
                        id: station_spec.spec_id(),
                        name: station_spec.spec_name_string(),
                    },
                ),
            ),
    {
        match state {
            EnsureState::CheckingBeforeVisit => match event {
                EnsureEvent::Checked(Err(e)) => (
                    EnsureState::Done,
                    EnsureAction::Finish(Err(EnsureOutcomeErr::CheckFail(e))),
                ),
                EnsureEvent::Checked(Ok(CheckStatus::VisitRequired)) => (
                    EnsureState::Visiting,
                    EnsureAction::RunVisit,
                ),
                EnsureEvent::Checked(Ok(CheckStatus::VisitNotRequired)) => (
                    EnsureState::Done,
                    EnsureAction::Finish(Ok(EnsureOutcomeOk::Unchanged)),
                ),
                EnsureEvent::Visited(_) => (state, EnsureAction::RunCheck),
            },
            EnsureState::Visiting => match event {
                EnsureEvent::Visited(Err(e)) => (
                    EnsureState::Done,
                    EnsureAction::Finish(Err(EnsureOutcomeErr::VisitFail(e))),
                ),
                EnsureEvent::Visited(Ok(())) => {
                    if station_spec.has_check_fn() {
                        (EnsureState::CheckingAfterVisit, EnsureAction::RunCheck)
                    } else {
                        (EnsureState::Done, EnsureAction::Finish(Ok(EnsureOutcomeOk::Changed)))
                    }
                },
                EnsureEvent::Checked(_) => (state, EnsureAction::RunCheck),
            },
            EnsureState::CheckingAfterVisit => match event {
                EnsureEvent::Checked(Err(e)) => (
                    EnsureState::Done,
                    EnsureAction::Finish(Err(EnsureOutcomeErr::CheckFail(e))),
                ),
                EnsureEvent::Checked(Ok(check_status)) => {
                    if check_status == CheckStatus::VisitRequired {
                        let id = station_spec.id().clone();
                        let name = station_spec.name_string();
                        let station_spec_error = StationSpecError::VisitRequiredAfterVisit {
                            id,
                            name,
                        };
                        station_progress.error = Some(E::from(station_spec_error));
                    }
                    (EnsureState::Done, EnsureAction::Finish(Ok(EnsureOutcomeOk::Changed)))
                },
                EnsureEvent::Visited(_) => (state, EnsureAction::RunCheck),
            },
            EnsureState::Done => (state, EnsureAction::RunCheck),
        }
    }
}

} // verus!
