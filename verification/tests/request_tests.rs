use bms_acquisition::errors::{AcqError, Error};
use bms_acquisition::legs::{Main, Tcell, Ucell};
use bms_acquisition::poll::poll_due;
use bms_acquisition::request::{LegState, Request};
use bms_acquisition::stats::{TempStats, VoltageStats};

fn sample_main() -> Main {
    Main {
        voltage: 48500,
        current: 1500,
        state_of_charge: 650,
        temp_avg: 250,
        temp_min: 210,
        temp_max: 320,
        temp_master: 400,
    }
}

fn sample_ucell() -> Ucell {
    let group = VoltageStats { avg_voltage: 3600, min_voltage: 3500, max_voltage: 3700, delta_voltage: 200 };
    Ucell {
        num_slaves: 8,
        num_cells: 144,
        num_cells_per_slave: 18,
        num_temp_sensors: 16,
        num_safe_resistors: 4,
        overall: group,
        left: group,
        right: group,
        cell_voltage: vec![3600; 144],
    }
}

fn sample_tcell() -> Tcell {
    let group = TempStats { avg_temp: 250, min_temp: 210, max_temp: 320, delta_temp: 110 };
    Tcell { overall: group, left: group, right: group, temp: vec![250; 16] }
}

#[test]
fn is_finished_only_after_every_leg_completed() {
    let mut r = Request::new();
    assert!(!r.is_finished());
    r.complete_main(LegState::Done(Ok(sample_main())));
    assert!(!r.is_finished());
    r.complete_ucell(LegState::Done(Ok(sample_ucell())));
    assert!(!r.is_finished());
    r.complete_tcell(LegState::Done(Ok(sample_tcell())));
    assert!(r.is_finished());
}

#[test]
fn is_finished_counts_failed_legs_as_complete() {
    let mut r = Request::new();
    r.complete_main(LegState::Done(Err(AcqError::TransportError)));
    r.complete_ucell(LegState::Crashed);
    assert!(!r.is_finished());
    r.complete_tcell(LegState::Done(Ok(sample_tcell())));
    assert!(r.is_finished());
}

#[test]
fn join_of_three_successes_is_a_snapshot() {
    let mut r = Request::new();
    r.complete_main(LegState::Done(Ok(sample_main())));
    r.complete_ucell(LegState::Done(Ok(sample_ucell())));
    r.complete_tcell(LegState::Done(Ok(sample_tcell())));
    let data = r.join().unwrap();
    assert_eq!(data.main, sample_main());
    assert_eq!(data.ucell, sample_ucell());
    assert_eq!(data.tcell, sample_tcell());
}

#[test]
fn join_surfaces_a_leg_failure_as_fetch() {
    let mut r = Request::new();
    r.complete_main(LegState::Done(Ok(sample_main())));
    r.complete_ucell(LegState::Done(Err(AcqError::EmptySeries)));
    r.complete_tcell(LegState::Done(Ok(sample_tcell())));
    assert_eq!(r.join().unwrap_err(), Error::Fetch(AcqError::EmptySeries));
}

#[test]
fn join_reports_first_discovered_failure() {
    let mut r = Request::new();
    r.complete_main(LegState::Done(Err(AcqError::MalformedDocument)));
    r.complete_ucell(LegState::Done(Err(AcqError::EmptySeries)));
    r.complete_tcell(LegState::Done(Ok(sample_tcell())));
    assert_eq!(r.join().unwrap_err(), Error::Fetch(AcqError::MalformedDocument));
}

#[test]
fn join_surfaces_a_body_decode_failure() {
    let mut r = Request::new();
    r.complete_main(LegState::Done(Err(AcqError::BodyDecodeError)));
    r.complete_ucell(LegState::Done(Ok(sample_ucell())));
    r.complete_tcell(LegState::Done(Ok(sample_tcell())));
    assert_eq!(r.join().unwrap_err(), Error::Fetch(AcqError::BodyDecodeError));
}

#[test]
fn join_of_a_crashed_leg_is_unexpected() {
    let mut r = Request::new();
    r.complete_main(LegState::Done(Ok(sample_main())));
    r.complete_ucell(LegState::Crashed);
    r.complete_tcell(LegState::Done(Err(AcqError::TransportError)));
    assert_eq!(r.join().unwrap_err(), Error::Unexpected);
}

#[test]
fn poll_due_is_consistent_with_returned_time() {
    let (due, t) = poll_due(0, 0);
    assert_eq!(due, t > 0);
    let (due_future, _) = poll_due(u128::MAX - 1, 1000);
    assert!(!due_future);
}
