//! Laws of the driver: every run finishes, follows the documented algorithm,
//! and visits a station only when it needs a visit.

use vstd::prelude::*;

use crate::cfg_model::CheckStatus;
use crate::rt_logic::driver::{
    ensure_start_spec, ensure_step_spec, event_fits, EnsureAction, EnsureEvent, EnsureState,
};
use crate::rt_model::{EnsureOutcomeErr, EnsureOutcomeOk};

verus! {

/// How many more results the driver may wait for in `state`.
pub open spec fn ensure_rank(state: EnsureState) -> nat {
    match state {
        EnsureState::CheckingBeforeVisit => 3,
        EnsureState::Visiting => 2,
        EnsureState::CheckingAfterVisit => 1,
        EnsureState::Done => 0,
    }
}

/// The outcome that the documented algorithm gives for the results `pre`
/// of the check before the visit, `visit` of the visit, and `post` of the
/// check after the visit (the checks only when there is a check function).
pub open spec fn ensure_outcome_spec<E>(
    has_check_fn: bool,
    pre: Result<CheckStatus, E>,
    visit: Result<(), E>,
    post: Result<CheckStatus, E>,
) -> Result<EnsureOutcomeOk, EnsureOutcomeErr<E>> {
    if has_check_fn {
        match pre {
            Err(e) => Err(EnsureOutcomeErr::CheckFail(e)),
            Ok(CheckStatus::VisitNotRequired) => Ok(EnsureOutcomeOk::Unchanged),
            Ok(CheckStatus::VisitRequired) => match visit {
                Err(e) => Err(EnsureOutcomeErr::VisitFail(e)),
                Ok(()) => match post {
                    Err(e) => Err(EnsureOutcomeErr::CheckFail(e)),
                    Ok(_) => Ok(EnsureOutcomeOk::Changed),
                },
            },
        }
    } else {
        match visit {
            Err(e) => Err(EnsureOutcomeErr::VisitFail(e)),
            Ok(()) => Ok(EnsureOutcomeOk::Changed),
        }
    }
}

/// The event that answers the work asked for in `state`, given the results
/// that the check and visit functions give.
pub open spec fn answer<E>(
    state: EnsureState,
    pre: Result<CheckStatus, E>,
    visit: Result<(), E>,
    post: Result<CheckStatus, E>,
) -> EnsureEvent<E> {
    match state {
        EnsureState::CheckingBeforeVisit => EnsureEvent::Checked(pre),
        EnsureState::Visiting => EnsureEvent::Visited(visit),
        _ => EnsureEvent::Checked(post),
    }
}

/// The driver after `steps` answers, starting from `start`.
pub open spec fn run_from<E>(
    has_check_fn: bool,
    start: (EnsureState, EnsureAction<E>),
    pre: Result<CheckStatus, E>,
    visit: Result<(), E>,
    post: Result<CheckStatus, E>,
    steps: nat,
) -> (EnsureState, EnsureAction<E>)
    decreases steps,
{
    if steps == 0 || start.0 == EnsureState::Done {
        start
    } else {
        run_from(
            has_check_fn,
            ensure_step_spec(has_check_fn, start.0, answer(start.0, pre, visit, post)),
            pre,
            visit,
            post,
            (steps - 1) as nat,
        )
    }
}

/// Every answer the driver waits for moves it strictly closer to `Done`.
pub proof fn lemma_ensure_step_progresses<E>(
    has_check_fn: bool,
    state: EnsureState,
    event: EnsureEvent<E>,
)
    requires
        event_fits(state, event),
    ensures
        ensure_rank(ensure_step_spec(has_check_fn, state, event).0) < ensure_rank(state),
        (ensure_step_spec(has_check_fn, state, event).0 == EnsureState::Done) <==> (ensure_step_spec(
            has_check_fn,
            state,
            event,
        ).1 is Finish),
{
}

/// Driving a station with answers from its check and visit functions
/// finishes within three answers, with the outcome of the documented
/// algorithm.
pub proof fn lemma_ensure_follows_algorithm<E>(
    has_check_fn: bool,
    pre: Result<CheckStatus, E>,
    visit: Result<(), E>,
    post: Result<CheckStatus, E>,
)
    ensures
        run_from(has_check_fn, ensure_start_spec::<E>(has_check_fn), pre, visit, post, 3)
            == (
            EnsureState::Done,
            EnsureAction::Finish(ensure_outcome_spec(has_check_fn, pre, visit, post)),
        ),
{
    reveal_with_fuel(run_from, 4);
}

/// The driver asks for a visit only when the station has no check
/// function, or when its check reported that a visit is required.
pub proof fn lemma_ensure_visits_only_when_required<E>(
    has_check_fn: bool,
    state: EnsureState,
    event: EnsureEvent<E>,
)
    requires
        event_fits(state, event),
    ensures
        (ensure_start_spec::<E>(has_check_fn).1 is RunVisit) <==> !has_check_fn,
        ensure_step_spec(has_check_fn, state, event).1 is RunVisit ==> state
            == EnsureState::CheckingBeforeVisit && event == EnsureEvent::<E>::Checked(
            Ok(CheckStatus::VisitRequired),
        ),
{
}

/// A station is reported `Unchanged` only when its check reported, before
/// any visit, that no visit is required; it is reported `Changed` only
/// after a successful visit.
pub proof fn lemma_ensure_outcome_matches_work<E>(
    has_check_fn: bool,
    state: EnsureState,
    event: EnsureEvent<E>,
)
    requires
        event_fits(state, event),
    ensures
        ensure_step_spec(has_check_fn, state, event).1 == EnsureAction::<E>::Finish(
            Ok(EnsureOutcomeOk::Unchanged),
        ) ==> state == EnsureState::CheckingBeforeVisit && event == EnsureEvent::<E>::Checked(
            Ok(CheckStatus::VisitNotRequired),
        ),
        ensure_step_spec(has_check_fn, state, event).1 == EnsureAction::<E>::Finish(
            Ok(EnsureOutcomeOk::Changed),
        ) ==> (state == EnsureState::Visiting && event matches EnsureEvent::Visited(Ok(_)))
            || state == EnsureState::CheckingAfterVisit,
        ensure_step_spec(has_check_fn, state, event).0 == EnsureState::CheckingAfterVisit ==> state
            == EnsureState::Visiting && event matches EnsureEvent::Visited(Ok(_)),
{
}

/// Whatever the check or the visit returns, success or error, its result
/// answers the work that the driver waits for: a check's result answers a
/// check (before or after the visit), a visit's result answers the visit. A
/// result of the other kind, or any result once the driver is done, does
/// not.
pub proof fn lemma_every_result_fits<E>(check: Result<CheckStatus, E>, visit: Result<(), E>)
    ensures
        event_fits(EnsureState::CheckingBeforeVisit, EnsureEvent::Checked(check)),
        event_fits(EnsureState::CheckingAfterVisit, EnsureEvent::Checked(check)),
        event_fits(EnsureState::Visiting, EnsureEvent::<E>::Visited(visit)),
        !event_fits(EnsureState::Visiting, EnsureEvent::Checked(check)),
        !event_fits(EnsureState::CheckingBeforeVisit, EnsureEvent::<E>::Visited(visit)),
        !event_fits(EnsureState::CheckingAfterVisit, EnsureEvent::<E>::Visited(visit)),
        !event_fits(EnsureState::Done, EnsureEvent::Checked(check)),
        !event_fits(EnsureState::Done, EnsureEvent::<E>::Visited(visit)),
{
}

/// Whether every result of the work that `action` asks for answers `state`.
pub open spec fn action_answerable<E>(state: EnsureState, action: EnsureAction<E>) -> bool {
    match action {
        EnsureAction::RunCheck => forall|r: Result<CheckStatus, E>|
            #[trigger] event_fits(state, EnsureEvent::Checked(r)),
        EnsureAction::RunVisit => forall|r: Result<(), E>|
            #[trigger] event_fits(state, EnsureEvent::<E>::Visited(r)),
        EnsureAction::Finish(_) => state == EnsureState::Done,
    }
}

/// The driver never asks for work whose result it then refuses: after
/// [`ensure_start_spec`], and after every step on a result that fits, any
/// result of the work asked for (success or error) fits the new state, and
/// the driver finishes exactly when it is done.
pub proof fn lemma_driver_accepts_every_result<E>(
    has_check_fn: bool,
    state: EnsureState,
    event: EnsureEvent<E>,
)
    ensures
        action_answerable(
            ensure_start_spec::<E>(has_check_fn).0,
            ensure_start_spec::<E>(has_check_fn).1,
        ),
        event_fits(state, event) ==> action_answerable(
            ensure_step_spec(has_check_fn, state, event).0,
            ensure_step_spec(has_check_fn, state, event).1,
        ),
{
}

} // verus!
