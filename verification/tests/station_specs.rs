use choochoo::cfg_model::{StationId, StationIdInvalidFmt, StationSpec, StationSpecFns};
use choochoo::rt_model::{StationRtId, StationSpecs, Stations, WouldCycleError};

fn add_station(
    stations: &mut StationSpecs<(), ()>,
    station_id: &'static str,
) -> Result<StationRtId, StationIdInvalidFmt> {
    let name = String::from(station_id);
    let station_id = StationId::new(station_id)?;
    let station_spec =
        StationSpec::new(station_id, name, String::from(""), StationSpecFns::new(()));
    Ok(stations.add_node(station_spec))
}

#[test]
fn station_specs_iter_with_indices_returns_iterator_with_all_stations()
-> Result<(), StationIdInvalidFmt> {
    let mut stations = StationSpecs::new();
    let a = add_station(&mut stations, "a")?;
    let b = add_station(&mut stations, "b")?;

    let indicies = stations
        .iter_with_indices()
        .into_iter()
        .map(|(node_index, _)| node_index)
        .collect::<Vec<StationRtId>>();

    assert_eq!(vec![a, b], indicies);
    Ok(())
}

#[test]
fn add_edge_refuses_cycles_and_self_loops() -> Result<(), StationIdInvalidFmt> {
    let mut stations = StationSpecs::new();
    let a = add_station(&mut stations, "a")?;
    let b = add_station(&mut stations, "b")?;
    let c = add_station(&mut stations, "c")?;

    assert_eq!(Ok(()), stations.add_edge(a, b));
    assert_eq!(Ok(()), stations.add_edge(b, c));
    assert_eq!(Err(WouldCycleError), stations.add_edge(c, a));
    assert_eq!(Err(WouldCycleError), stations.add_edge(a, a));
    assert_eq!(2, stations.edge_count());
    assert_eq!(3, stations.node_count());
    Ok(())
}

#[test]
fn parents_of_lists_most_recent_edge_first() -> Result<(), StationIdInvalidFmt> {
    let mut stations = StationSpecs::new();
    let a = add_station(&mut stations, "a")?;
    let b = add_station(&mut stations, "b")?;
    let c = add_station(&mut stations, "c")?;
    stations.add_edge(a, c).unwrap();
    stations.add_edge(b, c).unwrap();

    assert_eq!(vec![b, a], stations.parents_of(c));
    assert!(stations.parents_of(a).is_empty());
    assert_eq!("c", stations.get(c).unwrap().id().as_str());
    assert!(stations.get(3).is_none());
    Ok(())
}

#[test]
fn stations_iter_with_indices_returns_iterator_with_all_stations() -> Result<(), StationIdInvalidFmt> {
    let mut stations = Stations::new();
    let a = add_station(&mut stations, "a")?;
    let b = add_station(&mut stations, "b")?;

    let indicies = stations
        .iter_with_indices()
        .into_iter()
        .map(|(node_index, _)| node_index)
        .collect::<Vec<StationRtId>>();

    assert_eq!(vec![a, b], indicies);
    Ok(())
}
