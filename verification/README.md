# choochoo

A library for building operations tools: a workflow is a graph of stations,
each with an optional check function and a visit function. A train drives to
the destination by visiting each station whose parents are done, skipping
the visit where the check says the station is already in its desired state.

The library is written in Verus, and its logic is proved against its
contracts.

## Layout

* `src/cfg_model`: station identifiers, station specifications, check
  statuses, station progress.
* `src/rt_model`: the runtime model: the station graph (held in a
  `daggy::Dag`), the progress of each station, the destination, errors and
  the train report.
* `src/rt_logic`: the rules: the visit status update pass and its laws, the
  driver that decides what to run for one station and its laws, the
  integrity strategy that queues stations, and the laws of a whole drive.
* `src/train.rs`: recording visit outcomes and collecting errors.
* `src/fmt`: the plain text lines that show each station's status.
* `app/`: the asynchronous runtime around the library: running the station
  functions (`integrity_strat::iter`, `train::reach`), progress bars,
  rendering diagnostics, and serialisation.
* `tests/`: tests of the library on concrete values.
