use choochoo::cfg_model::{StationId, StationProgress, StationSpec, StationSpecFns};
use choochoo::rt_logic::VisitStatusUpdater;
use choochoo::rt_model::{
    Destination, StationProgresses, StationRtId, StationSpecs, VisitStatus, WouldCycleError,
};

type Specs = StationSpecs<(), ()>;
type Dest = Destination<(), (), ()>;

fn station(
    specs: &mut Specs,
    progresses: &mut StationProgresses<()>,
    station_id: &'static str,
    visit_status: VisitStatus,
) -> StationRtId {
    let name = String::from(station_id);
    let station_id = StationId::new(station_id).unwrap();
    let station_spec =
        StationSpec::new(station_id, name, String::from(""), StationSpecFns::new(()));
    let rt_id = specs.add_node(station_spec);
    progresses.insert(rt_id, StationProgress::new(visit_status));
    rt_id
}

fn status(dest: &Dest, rt_id: StationRtId) -> VisitStatus {
    dest.station_progresses().get(rt_id).unwrap().visit_status
}

#[test]
fn visit_status_updater_update_processes_all_possible_transitions() -> Result<(), WouldCycleError> {
    // a -> c
    //      ^
    // b --/
    //   \
    //    \--> d
    //
    // e --> f
    let mut stations = Specs::new();
    let mut progresses = StationProgresses::new();
    let node_index_a = station(&mut stations, &mut progresses, "a", VisitStatus::VisitSuccess);
    let node_index_b = station(&mut stations, &mut progresses, "b", VisitStatus::VisitSuccess);
    let node_index_c = station(&mut stations, &mut progresses, "c", VisitStatus::NotReady); // Should become `Queued`
    let node_index_d = station(&mut stations, &mut progresses, "d", VisitStatus::NotReady); // Should become `Queued`
    let node_index_e = station(&mut stations, &mut progresses, "e", VisitStatus::VisitFail);
    let node_index_f = station(&mut stations, &mut progresses, "f", VisitStatus::NotReady); // Should become `ParentFail`
    stations.add_edge(node_index_a, node_index_c)?;
    stations.add_edge(node_index_b, node_index_c)?;
    stations.add_edge(node_index_b, node_index_d)?;
    stations.add_edge(node_index_e, node_index_f)?;
    let mut dest = Destination::new(stations, progresses);

    VisitStatusUpdater::update(&mut dest);

    assert_eq!(VisitStatus::VisitSuccess, status(&dest, node_index_a));
    assert_eq!(VisitStatus::VisitSuccess, status(&dest, node_index_b));
    assert_eq!(VisitStatus::Queued, status(&dest, node_index_c));
    assert_eq!(VisitStatus::Queued, status(&dest, node_index_d));
    assert_eq!(VisitStatus::VisitFail, status(&dest, node_index_e));
    assert_eq!(VisitStatus::ParentFail, status(&dest, node_index_f));
    Ok(())
}

#[test]
fn visit_status_updater_update_propagates_parent_fail_transitions() -> Result<(), WouldCycleError> {
    // a -> c -> d -> e
    //      ^
    // b --/
    let mut stations = Specs::new();
    let mut progresses = StationProgresses::new();
    let node_index_a = station(&mut stations, &mut progresses, "a", VisitStatus::InProgress);
    let node_index_b = station(&mut stations, &mut progresses, "b", VisitStatus::VisitFail);
    let node_index_c = station(&mut stations, &mut progresses, "c", VisitStatus::NotReady);
    let node_index_d = station(&mut stations, &mut progresses, "d", VisitStatus::NotReady);
    let node_index_e = station(&mut stations, &mut progresses, "e", VisitStatus::NotReady);
    stations.add_edge(node_index_a, node_index_c)?;
    stations.add_edge(node_index_b, node_index_c)?;
    stations.add_edge(node_index_c, node_index_d)?;
    stations.add_edge(node_index_d, node_index_e)?;
    let mut dest = Destination::new(stations, progresses);

    VisitStatusUpdater::update(&mut dest);

    assert_eq!(VisitStatus::InProgress, status(&dest, node_index_a));
    assert_eq!(VisitStatus::VisitFail, status(&dest, node_index_b));
    assert_eq!(VisitStatus::ParentFail, status(&dest, node_index_c));
    assert_eq!(VisitStatus::ParentFail, status(&dest, node_index_d));
    assert_eq!(VisitStatus::ParentFail, status(&dest, node_index_e));
    Ok(())
}

#[test]
fn updates_not_ready_to_queued_when_no_parents_exist() {
    let mut stations = Specs::new();
    let mut progresses = StationProgresses::new();
    let node_index = station(&mut stations, &mut progresses, "n", VisitStatus::NotReady);
    let dest = Destination::new(stations, progresses);

    let visit_status_next = VisitStatusUpdater::visit_status_next(&dest, node_index);

    assert_eq!(Some(VisitStatus::Queued), visit_status_next);
}

#[test]
fn updates_not_ready_to_queued_when_all_parents_visit_success() -> Result<(), WouldCycleError> {
    // a -> c
    //      ^
    // b --/
    let mut stations = Specs::new();
    let mut progresses = StationProgresses::new();
    let node_index_a = station(&mut stations, &mut progresses, "a", VisitStatus::VisitSuccess);
    let node_index_b = station(&mut stations, &mut progresses, "b", VisitStatus::VisitSuccess);
    let node_index_c = station(&mut stations, &mut progresses, "c", VisitStatus::NotReady);
    stations.add_edge(node_index_a, node_index_c)?;
    stations.add_edge(node_index_b, node_index_c)?;
    let dest = Destination::new(stations, progresses);

    let visit_status_next = VisitStatusUpdater::visit_status_next(&dest, node_index_c);

    assert_eq!(Some(VisitStatus::Queued), visit_status_next);
    Ok(())
}

#[test]
fn updates_parent_pending_to_visit_queued_when_all_parents_visit_success_or_unnecessary()
-> Result<(), WouldCycleError> {
    // a -> c
    //      ^
    // b --/
    let mut stations = Specs::new();
    let mut progresses = StationProgresses::new();
    let node_index_a = station(&mut stations, &mut progresses, "a", VisitStatus::VisitSuccess);
    let node_index_b =
        station(&mut stations, &mut progresses, "b", VisitStatus::VisitUnnecessary);
    let node_index_c = station(&mut stations, &mut progresses, "c", VisitStatus::NotReady);
    stations.add_edge(node_index_a, node_index_c)?;
    stations.add_edge(node_index_b, node_index_c)?;
    let dest = Destination::new(stations, progresses);

    let visit_status_next = VisitStatusUpdater::visit_status_next(&dest, node_index_c);

    assert_eq!(Some(VisitStatus::Queued), visit_status_next);
    Ok(())
}

#[test]
fn updates_not_ready_to_parent_fail_when_any_parents_visit_fail() -> Result<(), WouldCycleError> {
    // a -> c
    //      ^
    // b --/
    let mut stations = Specs::new();
    let mut progresses = StationProgresses::new();
    let node_index_a = station(&mut stations, &mut progresses, "a", VisitStatus::VisitSuccess);
    let node_index_b = station(&mut stations, &mut progresses, "b", VisitStatus::VisitFail);
    let node_index_c = station(&mut stations, &mut progresses, "c", VisitStatus::NotReady);
    stations.add_edge(node_index_a, node_index_c)?;
    stations.add_edge(node_index_b, node_index_c)?;
    let dest = Destination::new(stations, progresses);

    let visit_status_next = VisitStatusUpdater::visit_status_next(&dest, node_index_c);

    assert_eq!(Some(VisitStatus::ParentFail), visit_status_next);
    Ok(())
}

#[test]
fn updates_not_ready_to_parent_fail_when_any_parents_parent_fail() -> Result<(), WouldCycleError> {
    let mut stations = Specs::new();
    let mut progresses = StationProgresses::new();
    let node_index_a = station(&mut stations, &mut progresses, "a", VisitStatus::VisitSuccess);
    let node_index_b = station(&mut stations, &mut progresses, "b", VisitStatus::ParentFail);
    let node_index_c = station(&mut stations, &mut progresses, "c", VisitStatus::NotReady);
    stations.add_edge(node_index_a, node_index_c)?;
    stations.add_edge(node_index_b, node_index_c)?;
    let dest = Destination::new(stations, progresses);

    let visit_status_next = VisitStatusUpdater::visit_status_next(&dest, node_index_c);

    assert_eq!(Some(VisitStatus::ParentFail), visit_status_next);
    Ok(())
}

#[test]
fn updates_not_ready_to_parent_fail_when_any_parents_check_fail() -> Result<(), WouldCycleError> {
    let mut stations = Specs::new();
    let mut progresses = StationProgresses::new();
    let node_index_a = station(&mut stations, &mut progresses, "a", VisitStatus::CheckFail);
    let node_index_c = station(&mut stations, &mut progresses, "c", VisitStatus::NotReady);
    stations.add_edge(node_index_a, node_index_c)?;
    let dest = Destination::new(stations, progresses);

    let visit_status_next = VisitStatusUpdater::visit_status_next(&dest, node_index_c);

    assert_eq!(Some(VisitStatus::ParentFail), visit_status_next);
    Ok(())
}

#[test]
fn no_change_to_not_ready_when_any_parents_on_other_status() -> Result<(), WouldCycleError> {
    [
        VisitStatus::NotReady,
        VisitStatus::Queued,
        VisitStatus::InProgress,
    ]
    .iter()
    .copied()
    .try_for_each(|visit_status_parent| {
        let mut stations = Specs::new();
        let mut progresses = StationProgresses::new();
        let node_index_a = station(&mut stations, &mut progresses, "a", VisitStatus::VisitSuccess);
        let node_index_b = station(&mut stations, &mut progresses, "b", visit_status_parent);
        let node_index_c = station(&mut stations, &mut progresses, "c", VisitStatus::NotReady);
        stations.add_edge(node_index_a, node_index_c)?;
        stations.add_edge(node_index_b, node_index_c)?;
        let dest = Destination::new(stations, progresses);

        let visit_status_next = VisitStatusUpdater::visit_status_next(&dest, node_index_c);

        assert_eq!(None, visit_status_next);

        Ok(())
    })
}

#[test]
fn visit_status_updater_no_change_to_parent_fail_visit_success_or_visit_fail()
-> Result<(), WouldCycleError> {
    [
        VisitStatus::ParentFail,
        VisitStatus::VisitSuccess,
        VisitStatus::VisitFail,
    ]
    .iter()
    .copied()
    .try_for_each(|visit_status| {
        let mut stations = Specs::new();
        let mut progresses = StationProgresses::new();
        let node_index_a = station(&mut stations, &mut progresses, "a", visit_status);
        let dest = Destination::new(stations, progresses);

        let visit_status_next = VisitStatusUpdater::visit_status_next(&dest, node_index_a);

        assert_eq!(None, visit_status_next);

        Ok(())
    })
}

#[test]
fn update_keeps_errors_and_skips_stations_without_progress() -> Result<(), WouldCycleError> {
    let mut stations = Specs::new();
    let mut progresses = StationProgresses::new();
    let node_index_a = station(&mut stations, &mut progresses, "a", VisitStatus::NotReady);
    let node_index_b = stations.add_node(StationSpec::new(
        StationId::new("b").unwrap(),
        String::from("b"),
        String::from(""),
        StationSpecFns::new(()),
    ));
    let node_index_c = station(&mut stations, &mut progresses, "c", VisitStatus::NotReady);
    stations.add_edge(node_index_b, node_index_c)?;
    let mut dest = Destination::new(stations, progresses);
    dest.station_progresses_mut().replace_error(node_index_a, Some(()));

    VisitStatusUpdater::update(&mut dest);

    assert_eq!(VisitStatus::Queued, status(&dest, node_index_a));
    assert_eq!(Some(()), dest.station_progresses().get(node_index_a).unwrap().error);
    assert!(dest.station_progresses().get(node_index_b).is_none());
    // A parent without progress is skipped.
    assert_eq!(VisitStatus::Queued, status(&dest, node_index_c));
    Ok(())
}

#[test]
fn update_twice_changes_nothing_when_stations_are_in_order() -> Result<(), WouldCycleError> {
    // a -> b -> c, with a failed: one pass marks b and c.
    let mut stations = Specs::new();
    let mut progresses = StationProgresses::new();
    let a = station(&mut stations, &mut progresses, "a", VisitStatus::VisitFail);
    let b = station(&mut stations, &mut progresses, "b", VisitStatus::NotReady);
    let c = station(&mut stations, &mut progresses, "c", VisitStatus::NotReady);
    stations.add_edge(a, b)?;
    stations.add_edge(b, c)?;
    let mut dest = Destination::new(stations, progresses);

    VisitStatusUpdater::update(&mut dest);
    let once = [status(&dest, a), status(&dest, b), status(&dest, c)];
    VisitStatusUpdater::update(&mut dest);
    let twice = [status(&dest, a), status(&dest, b), status(&dest, c)];

    assert_eq!(
        [VisitStatus::VisitFail, VisitStatus::ParentFail, VisitStatus::ParentFail],
        once
    );
    assert_eq!(once, twice);
    Ok(())
}

#[test]
fn update_needs_a_second_pass_when_stations_are_out_of_order() -> Result<(), WouldCycleError> {
    // c -> b, where c was added after b: b is processed before c changes.
    let mut stations = Specs::new();
    let mut progresses = StationProgresses::new();
    let a = station(&mut stations, &mut progresses, "a", VisitStatus::VisitFail);
    let b = station(&mut stations, &mut progresses, "b", VisitStatus::NotReady);
    let c = station(&mut stations, &mut progresses, "c", VisitStatus::NotReady);
    stations.add_edge(a, c)?;
    stations.add_edge(c, b)?;
    let mut dest = Destination::new(stations, progresses);

    VisitStatusUpdater::update(&mut dest);
    assert_eq!(VisitStatus::NotReady, status(&dest, b));
    assert_eq!(VisitStatus::ParentFail, status(&dest, c));
    VisitStatusUpdater::update(&mut dest);
    assert_eq!(VisitStatus::ParentFail, status(&dest, b));
    Ok(())
}

/// Builds `a -> c <- b` with the given statuses of `a` and `b`, and `c`
/// waiting for its parents.
fn two_parents(status_a: VisitStatus, status_b: VisitStatus) -> Result<(Dest, StationRtId), WouldCycleError> {
    let mut stations = Specs::new();
    let mut progresses = StationProgresses::new();
    let station_a = station(&mut stations, &mut progresses, "a", status_a);
    let station_b = station(&mut stations, &mut progresses, "b", status_b);
    let station_c = station(&mut stations, &mut progresses, "c", VisitStatus::NotReady);
    stations.add_edge(station_a, station_c)?;
    stations.add_edge(station_b, station_c)?;
    Ok((Destination::new(stations, progresses), station_c))
}

#[test]
fn updates_parent_pending_to_visit_queued_when_no_parents_exist() {
    let mut stations = Specs::new();
    let mut progresses = StationProgresses::new();
    let station_a = station(&mut stations, &mut progresses, "a", VisitStatus::NotReady);
    let dest = Destination::new(stations, progresses);

    let visit_status_next = VisitStatusUpdater::visit_status_next(&dest, station_a);

    assert_eq!(Some(VisitStatus::Queued), visit_status_next);
}

#[test]
fn updates_parent_pending_to_visit_queued_when_all_parents_visit_success(
) -> Result<(), WouldCycleError> {
    let (dest, station_c) = two_parents(VisitStatus::VisitSuccess, VisitStatus::VisitSuccess)?;

    let visit_status_next = VisitStatusUpdater::visit_status_next(&dest, station_c);

    assert_eq!(Some(VisitStatus::Queued), visit_status_next);
    Ok(())
}

#[test]
fn visit_status_updater_updates_parent_pending_to_parent_fail_when_any_parents_visit_fail(
) -> Result<(), WouldCycleError> {
    let (dest, station_c) = two_parents(VisitStatus::VisitSuccess, VisitStatus::VisitFail)?;

    let visit_status_next = VisitStatusUpdater::visit_status_next(&dest, station_c);

    assert_eq!(Some(VisitStatus::ParentFail), visit_status_next);
    Ok(())
}

#[test]
fn visit_status_updater_updates_parent_pending_to_parent_fail_when_any_parents_parent_fail(
) -> Result<(), WouldCycleError> {
    let (dest, station_c) = two_parents(VisitStatus::VisitSuccess, VisitStatus::ParentFail)?;

    let visit_status_next = VisitStatusUpdater::visit_status_next(&dest, station_c);

    assert_eq!(Some(VisitStatus::ParentFail), visit_status_next);
    Ok(())
}

#[test]
fn visit_status_updater_no_change_to_parent_pending_when_any_parents_on_other_status(
) -> Result<(), WouldCycleError> {
    for visit_status_parent in [VisitStatus::NotReady, VisitStatus::Queued, VisitStatus::InProgress] {
        let (dest, station_c) = two_parents(VisitStatus::VisitSuccess, visit_status_parent)?;

        let visit_status_next = VisitStatusUpdater::visit_status_next(&dest, station_c);

        assert_eq!(None, visit_status_next);
    }
    Ok(())
}

#[test]
fn updates_not_ready_to_parent_fail_when_a_later_walked_parent_fails() -> Result<(), WouldCycleError> {
    // The parent walked first is still in progress; the other one failed.
    for status_in_progress in [VisitStatus::InProgress, VisitStatus::Queued, VisitStatus::NotReady] {
        let mut stations = Specs::new();
        let mut progresses = StationProgresses::new();
        let station_a = station(&mut stations, &mut progresses, "a", status_in_progress);
        let station_b = station(&mut stations, &mut progresses, "b", VisitStatus::VisitFail);
        let station_c = station(&mut stations, &mut progresses, "c", VisitStatus::NotReady);
        stations.add_edge(station_b, station_c)?;
        stations.add_edge(station_a, station_c)?;
        assert_eq!(vec![station_a, station_b], stations.parents_of(station_c));
        let mut dest = Destination::new(stations, progresses);

        assert_eq!(Some(VisitStatus::ParentFail), VisitStatusUpdater::visit_status_next(&dest, station_c));
        VisitStatusUpdater::update(&mut dest);
        assert_eq!(VisitStatus::ParentFail, status(&dest, station_c));
    }
    Ok(())
}

#[test]
fn update_leaves_no_station_not_ready_once_nothing_is_queued() -> Result<(), WouldCycleError> {
    // a -> b -> c, d; stations added in dependency order.
    let mut stations = Specs::new();
    let mut progresses = StationProgresses::new();
    let a = station(&mut stations, &mut progresses, "a", VisitStatus::CheckFail);
    let b = station(&mut stations, &mut progresses, "b", VisitStatus::NotReady);
    let c = station(&mut stations, &mut progresses, "c", VisitStatus::NotReady);
    let d = station(&mut stations, &mut progresses, "d", VisitStatus::VisitUnnecessary);
    stations.add_edge(a, b)?;
    stations.add_edge(b, c)?;
    let mut dest = Destination::new(stations, progresses);

    VisitStatusUpdater::update(&mut dest);

    assert_eq!(VisitStatus::ParentFail, status(&dest, b));
    assert_eq!(VisitStatus::ParentFail, status(&dest, c));
    assert_eq!(VisitStatus::VisitUnnecessary, status(&dest, d));
    assert!(dest.stations().iter().all(|s| s.progress.visit_status != VisitStatus::NotReady));
    Ok(())
}
