use c2clat::error::{responder_outcome, MeasureError};
use c2clat::params::ConfigError;
use c2clat::topology::{
    cores_in_mask, first_cores, pin_outcome, probe_outcome, AFFINITY_CALL_FAILED,
};

#[test]
fn the_cores_are_the_set_flags_in_ascending_order() {
    let mask = vec![false, true, true, false, false, true, false, true];
    assert_eq!(cores_in_mask(&mask), vec![1, 2, 5, 7]);
}

#[test]
fn an_empty_mask_has_no_cores() {
    assert_eq!(cores_in_mask(&Vec::new()), Vec::<usize>::new());
    assert_eq!(cores_in_mask(&vec![false; 64]), Vec::<usize>::new());
}

#[test]
fn a_full_mask_has_every_core() {
    let cores = cores_in_mask(&vec![true; 1024]);
    assert_eq!(cores.len(), 1024);
    for (k, core) in cores.iter().enumerate() {
        assert_eq!(*core, k);
    }
}

#[test]
fn the_first_and_the_last_flag_count() {
    let mut mask = vec![false; 1024];
    mask[0] = true;
    mask[1023] = true;
    assert_eq!(cores_in_mask(&mask), vec![0, 1023]);
}

#[test]
fn a_failed_query_leaves_the_topology_unknown() {
    assert_eq!(AFFINITY_CALL_FAILED, -1);
    assert_eq!(
        probe_outcome(-1, &vec![true, true]),
        Err(MeasureError::TopologyUnavailable)
    );
}

#[test]
fn a_successful_query_gives_the_cores_of_its_mask() {
    assert_eq!(probe_outcome(0, &vec![true, false, true]), Ok(vec![0, 2]));
}

#[test]
fn a_failed_pin_is_fatal_and_names_the_core() {
    assert_eq!(pin_outcome(-1, 3), Err(MeasureError::PinFailure { core: 3 }));
    assert_eq!(pin_outcome(0, 3), Ok(()));
}

#[test]
fn the_fallback_list_counts_from_zero() {
    assert_eq!(first_cores(0), Vec::<usize>::new());
    assert_eq!(first_cores(4), vec![0, 1, 2, 3]);
    assert_eq!(first_cores(1024).len(), 1024);
    assert_eq!(first_cores(1024)[1023], 1023);
}

#[test]
fn a_responder_that_ended_abnormally_is_fatal() {
    assert_eq!(responder_outcome(false), Err(MeasureError::ResponderFailure));
    assert_eq!(responder_outcome(true), Ok(()));
}

#[test]
fn a_configuration_error_is_a_failure_of_the_run() {
    assert_eq!(
        MeasureError::from(ConfigError::SampleCountNotPositive),
        MeasureError::InvalidConfiguration(ConfigError::SampleCountNotPositive)
    );
    assert_eq!(
        MeasureError::from(ConfigError::SampleCountNotNumeric),
        MeasureError::InvalidConfiguration(ConfigError::SampleCountNotNumeric)
    );
}

#[test]
fn every_failure_has_its_diagnostic() {
    assert_eq!(MeasureError::TopologyUnavailable.diagnostic(), "sched_getaffinity failed");
    assert_eq!(
        MeasureError::PinFailure { core: 17 }.diagnostic(),
        "could not pin a thread to core 17"
    );
    assert_eq!(
        MeasureError::PinFailure { core: 0 }.diagnostic(),
        "could not pin a thread to core 0"
    );
    assert_eq!(
        MeasureError::InvalidConfiguration(ConfigError::SampleCountNotPositive).diagnostic(),
        "the number of samples must be at least 1"
    );
    assert_eq!(
        MeasureError::InvalidConfiguration(ConfigError::SampleCountNotNumeric).diagnostic(),
        "Please number"
    );
    assert_eq!(
        MeasureError::ResponderFailure.diagnostic(),
        "the responder thread ended abnormally"
    );
}
