use choochoo::cfg_model::{
    CheckStatus, StationId, StationIdInvalidFmt, StationProgress, StationSpec, StationSpecFns,
};
use choochoo::rt_logic::driver::{EnsureAction, EnsureEvent};
use choochoo::rt_logic::strategy::StationQueuer;
use choochoo::rt_logic::{Driver, VisitStatusUpdater};
use choochoo::rt_model::{
    Destination, EnsureOutcomeErr, EnsureOutcomeOk, StationProgresses, StationRtId, StationSpecs,
    TrainReport, VisitStatus,
};
use choochoo::Train;

type CheckFn = fn() -> Result<CheckStatus, ()>;
type VisitFn = fn() -> Result<(), ()>;
type Dest = Destination<CheckFn, VisitFn, ()>;

fn visit_ok() -> Result<(), ()> {
    Ok(())
}

fn visit_err() -> Result<(), ()> {
    Err(())
}

fn check_err() -> Result<CheckStatus, ()> {
    Err(())
}

fn check_required() -> Result<CheckStatus, ()> {
    Ok(CheckStatus::VisitRequired)
}

fn check_not_required() -> Result<CheckStatus, ()> {
    Ok(CheckStatus::VisitNotRequired)
}

/// Runs the driver for one station, running its functions as asked.
fn ensure(
    spec: &StationSpec<CheckFn, VisitFn>,
    progress: &mut StationProgress<()>,
) -> Result<EnsureOutcomeOk, EnsureOutcomeErr<()>> {
    let (mut state, mut action) = Driver::<()>::start(spec);
    loop {
        let event = match action {
            EnsureAction::RunCheck => {
                EnsureEvent::Checked((spec.station_spec_fns().check_fn.unwrap())())
            }
            EnsureAction::RunVisit => EnsureEvent::Visited((spec.station_spec_fns().visit_fn)()),
            EnsureAction::Finish(outcome) => return outcome,
        };
        let (next_state, next_action) = Driver::next(spec, progress, state, event);
        state = next_state;
        action = next_action;
    }
}

/// Drives the train to the destination, round by round, visiting the
/// stations of a round one at a time.
fn reach(dest: &mut Dest) -> TrainReport<()> {
    let mut train_report = TrainReport::new();
    VisitStatusUpdater::update(dest);
    let mut station_queuer = StationQueuer::new();
    loop {
        let queued = match station_queuer.next_round(dest) {
            Some(queued) => queued,
            None => break,
        };
        for rt_id in queued {
            let mut progress = dest.station_progresses_mut().remove(rt_id).unwrap();
            assert_eq!(VisitStatus::InProgress, progress.visit_status);
            let outcome = ensure(dest.station_specs().get(rt_id).unwrap(), &mut progress);
            Train::record_outcome(&mut progress, outcome);
            dest.station_progresses_mut().insert(rt_id, progress);
            assert!(station_queuer.station_done(rt_id));
        }
        VisitStatusUpdater::update(dest);
    }
    Train::collect_errors(dest, &mut train_report);
    train_report
}

fn add_station(
    station_specs: &mut StationSpecs<CheckFn, VisitFn>,
    station_progresses: &mut StationProgresses<()>,
    station_id: &'static str,
    visit_status: VisitStatus,
    check_fn: Option<CheckFn>,
    visit_fn: VisitFn,
) -> Result<StationRtId, StationIdInvalidFmt> {
    let name = String::from(station_id);
    let station_id = StationId::new(station_id)?;
    let mut station_spec_fns = StationSpecFns::new(visit_fn);
    if let Some(check_fn) = check_fn {
        station_spec_fns = station_spec_fns.with_check_fn(check_fn);
    }
    let station_spec = StationSpec::new(station_id, name, String::from(""), station_spec_fns);
    let station_rt_id = station_specs.add_node(station_spec);
    station_progresses.insert(station_rt_id, StationProgress::new(visit_status));
    Ok(station_rt_id)
}

fn status(dest: &Dest, rt_id: StationRtId) -> VisitStatus {
    dest.station_progresses().get(rt_id).unwrap().visit_status
}

#[test]
fn reaches_empty_dest() {
    let mut dest = Dest::empty();

    let train_report = reach(&mut dest);

    assert!(train_report.errors.is_empty());
}

#[test]
fn visits_all_stations_to_destination() -> Result<(), StationIdInvalidFmt> {
    let mut dest = {
        let mut station_specs = StationSpecs::new();
        let mut station_progresses = StationProgresses::new();
        add_station(&mut station_specs, &mut station_progresses, "a", VisitStatus::Queued, None, visit_ok)?;
        add_station(&mut station_specs, &mut station_progresses, "b", VisitStatus::Queued, None, visit_ok)?;
        Destination::new(station_specs, station_progresses)
    };

    let train_report = reach(&mut dest);

    assert!(train_report.errors.is_empty());
    assert!(dest
        .stations()
        .iter()
        .all(|station| station.progress.visit_status == VisitStatus::VisitSuccess));
    Ok(())
}

#[test]
fn records_successful_and_failed_visits() -> Result<(), StationIdInvalidFmt> {
    let (mut dest, station_a, station_b) = {
        let mut station_specs = StationSpecs::new();
        let mut station_progresses = StationProgresses::new();
        let station_a = add_station(&mut station_specs, &mut station_progresses, "a", VisitStatus::Queued, None, visit_ok)?;
        let station_b = add_station(&mut station_specs, &mut station_progresses, "b", VisitStatus::Queued, None, visit_err)?;
        (Destination::new(station_specs, station_progresses), station_a, station_b)
    };

    let train_report = reach(&mut dest);

    assert_eq!(vec![(station_b, ())], train_report.errors);
    assert_eq!(VisitStatus::VisitSuccess, status(&dest, station_a));
    assert_eq!(VisitStatus::VisitFail, status(&dest, station_b));
    Ok(())
}

#[test]
fn reach_create_records_check_fn_failure() -> Result<(), StationIdInvalidFmt> {
    let (mut dest, station_a, station_b) = {
        let mut station_specs = StationSpecs::new();
        let mut station_progresses = StationProgresses::new();
        let station_a = add_station(&mut station_specs, &mut station_progresses, "a", VisitStatus::NotReady, Some(check_err), visit_ok)?;
        let station_b = add_station(&mut station_specs, &mut station_progresses, "b", VisitStatus::NotReady, None, visit_err)?;
        station_specs.add_edge(station_a, station_b).unwrap();
        (Destination::new(station_specs, station_progresses), station_a, station_b)
    };

    let train_report = reach(&mut dest);

    // Station b's error is not reached, because station a failed.
    assert_eq!(vec![(station_a, ())], train_report.errors);
    assert_eq!(VisitStatus::CheckFail, status(&dest, station_a));
    assert_eq!(VisitStatus::ParentFail, status(&dest, station_b));
    Ok(())
}

#[test]
fn reach_create_records_check_fn_failure_after_op_success() -> Result<(), StationIdInvalidFmt> {
    let (mut dest, station_a, station_b) = {
        let mut station_specs = StationSpecs::new();
        let mut station_progresses = StationProgresses::new();
        let station_a = add_station(&mut station_specs, &mut station_progresses, "a", VisitStatus::NotReady, Some(check_required), visit_ok)?;
        let station_b = add_station(&mut station_specs, &mut station_progresses, "b", VisitStatus::NotReady, None, visit_err)?;
        station_specs.add_edge(station_a, station_b).unwrap();
        (Destination::new(station_specs, station_progresses), station_a, station_b)
    };

    let train_report = reach(&mut dest);

    assert_eq!(VisitStatus::VisitSuccess, status(&dest, station_a));
    assert_eq!(VisitStatus::VisitFail, status(&dest, station_b));
    assert_eq!(vec![(station_a, ()), (station_b, ())], train_report.errors);
    Ok(())
}

#[test]
fn reach_create_sets_work_unnecessary_if_nothing_changed() -> Result<(), StationIdInvalidFmt> {
    let (mut dest, station_a, station_b) = {
        let mut station_specs = StationSpecs::new();
        let mut station_progresses = StationProgresses::new();
        let station_a = add_station(&mut station_specs, &mut station_progresses, "a", VisitStatus::NotReady, Some(check_not_required), visit_ok)?;
        // The visit function fails, proving that it is never run.
        let station_b = add_station(&mut station_specs, &mut station_progresses, "b", VisitStatus::NotReady, Some(check_not_required), visit_err)?;
        station_specs.add_edge(station_a, station_b).unwrap();
        (Destination::new(station_specs, station_progresses), station_a, station_b)
    };

    let train_report = reach(&mut dest);

    assert!(train_report.errors.is_empty());
    assert_eq!(VisitStatus::VisitUnnecessary, status(&dest, station_a));
    assert_eq!(VisitStatus::VisitUnnecessary, status(&dest, station_b));
    Ok(())
}

#[test]
fn record_outcome_sets_status_and_error() {
    let mut progress = StationProgress::<u8>::new(VisitStatus::InProgress);
    Train::record_outcome(&mut progress, Ok(EnsureOutcomeOk::Changed));
    assert_eq!(VisitStatus::VisitSuccess, progress.visit_status);
    assert_eq!(None, progress.error);

    Train::record_outcome(&mut progress, Ok(EnsureOutcomeOk::Unchanged));
    assert_eq!(VisitStatus::VisitUnnecessary, progress.visit_status);

    Train::record_outcome(&mut progress, Err(EnsureOutcomeErr::CheckFail(7)));
    assert_eq!(VisitStatus::CheckFail, progress.visit_status);
    assert_eq!(Some(7), progress.error);

    Train::record_outcome(&mut progress, Err(EnsureOutcomeErr::VisitFail(9)));
    assert_eq!(VisitStatus::VisitFail, progress.visit_status);
    assert_eq!(Some(9), progress.error);
}

#[test]
fn collect_errors_takes_errors_in_station_order() -> Result<(), StationIdInvalidFmt> {
    let mut station_specs = StationSpecs::<CheckFn, VisitFn>::new();
    let mut station_progresses = StationProgresses::<u8>::new();
    for id in ["a", "b", "c"] {
        let spec = StationSpec::new(
            StationId::new(id)?,
            String::from(id),
            String::from(""),
            StationSpecFns::new(visit_ok as VisitFn),
        );
        let rt_id = station_specs.add_node(spec);
        station_progresses.insert(rt_id, StationProgress::new(VisitStatus::VisitFail));
    }
    station_progresses.replace_error(2, Some(3));
    station_progresses.replace_error(0, Some(1));
    let mut dest = Destination::new(station_specs, station_progresses);
    let mut train_report = TrainReport::new();

    Train::collect_errors(&mut dest, &mut train_report);

    assert_eq!(vec![(0, 1), (2, 3)], train_report.errors);
    assert!(dest.stations().iter().all(|station| station.progress.error.is_none()));
    Ok(())
}

#[test]
fn reach_create_reaches_empty_dest() {
    let mut dest = Dest::empty();

    let train_report = reach(&mut dest);

    assert!(train_report.errors.is_empty());
    assert!(dest.stations().is_empty());
}

#[test]
fn reach_create_visits_all_stations_to_destination() -> Result<(), StationIdInvalidFmt> {
    // Stations start out waiting for their parents; the first update queues
    // them.
    let mut dest = {
        let mut station_specs = StationSpecs::new();
        let mut station_progresses = StationProgresses::new();
        add_station(&mut station_specs, &mut station_progresses, "a", VisitStatus::NotReady, None, visit_ok)?;
        add_station(&mut station_specs, &mut station_progresses, "b", VisitStatus::NotReady, None, visit_ok)?;
        Destination::new(station_specs, station_progresses)
    };

    let train_report = reach(&mut dest);

    assert!(train_report.errors.is_empty());
    assert!(dest
        .stations()
        .iter()
        .all(|station| station.progress.visit_status == VisitStatus::VisitSuccess));
    Ok(())
}

#[test]
fn reach_create_records_successful_and_failed_ops() -> Result<(), StationIdInvalidFmt> {
    let (mut dest, station_a, station_b) = {
        let mut station_specs = StationSpecs::new();
        let mut station_progresses = StationProgresses::new();
        let station_a = add_station(&mut station_specs, &mut station_progresses, "a", VisitStatus::NotReady, None, visit_ok)?;
        let station_b = add_station(&mut station_specs, &mut station_progresses, "b", VisitStatus::NotReady, None, visit_err)?;
        (Destination::new(station_specs, station_progresses), station_a, station_b)
    };

    let train_report = reach(&mut dest);

    assert_eq!(vec![(station_b, ())], train_report.errors);
    assert_eq!(VisitStatus::VisitSuccess, status(&dest, station_a));
    assert_eq!(VisitStatus::VisitFail, status(&dest, station_b));
    Ok(())
}
