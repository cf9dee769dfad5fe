use choochoo::cfg_model::{
    CheckStatus, StationId, StationIdInvalidFmt, StationProgress, StationSpec, StationSpecFns,
};

type CheckFn = fn(&mut StationProgress<()>) -> Result<CheckStatus, ()>;
type VisitFn = fn(&mut StationProgress<()>) -> Result<(), ()>;

fn visit_ok(_: &mut StationProgress<()>) -> Result<(), ()> {
    Ok(())
}

fn check_required(_: &mut StationProgress<()>) -> Result<CheckStatus, ()> {
    Ok(CheckStatus::VisitRequired)
}

#[test]
fn station_spec_display_returns_readable_informative_message()
-> Result<(), StationIdInvalidFmt> {
    let station_id = StationId::new("station_id")?;
    let name = String::from("Station Name");
    let description = String::from("One liner.");
    let station_spec_fns = {
        let visit_fn: VisitFn = visit_ok;
        StationSpecFns::<CheckFn, VisitFn>::new(visit_fn)
    };
    let station_spec = StationSpec::new(station_id, name, description, station_spec_fns);

    assert_eq!("Station Name: One liner.", station_spec.to_string());
    Ok(())
}

#[test]
fn station_spec_getters_return_constructor_values() -> Result<(), StationIdInvalidFmt> {
    let visit_fn: VisitFn = visit_ok;
    let check_fn: CheckFn = check_required;
    let fns = StationSpecFns::<CheckFn, VisitFn>::new(visit_fn);
    assert!(fns.check_fn.is_none());
    let fns = fns.with_check_fn(check_fn);
    assert!(fns.check_fn.is_some());

    let station_spec = StationSpec::new(
        StationId::new("a")?,
        String::from("A"),
        String::from("a_desc"),
        fns,
    );

    assert_eq!("a", station_spec.id().as_str());
    assert_eq!("A", station_spec.name());
    assert_eq!("a_desc", station_spec.description());
    assert!(station_spec.has_check_fn());
    assert!(station_spec.station_spec_fns().check_fn.is_some());
    Ok(())
}
