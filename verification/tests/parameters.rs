use c2clat::options::Opt;
use c2clat::params::{
    ConfigError, MeasurementParameters, DEFAULT_SAMPLE_COUNT, REPETITIONS, WARMUP_REPETITIONS,
};

#[test]
fn zero_sample_count_is_rejected() {
    assert_eq!(
        MeasurementParameters::new(0).err(),
        Some(ConfigError::SampleCountNotPositive)
    );
}

#[test]
fn negative_sample_count_is_rejected() {
    assert_eq!(
        MeasurementParameters::new(-1).err(),
        Some(ConfigError::SampleCountNotPositive)
    );
    assert_eq!(
        MeasurementParameters::new(isize::MIN).err(),
        Some(ConfigError::SampleCountNotPositive)
    );
}

#[test]
fn positive_sample_counts_are_accepted() {
    assert_eq!(MeasurementParameters::new(1).unwrap().sample_count(), 1);
    assert_eq!(MeasurementParameters::new(5).unwrap().sample_count(), 5);
    assert_eq!(
        MeasurementParameters::new(isize::MAX).unwrap().sample_count(),
        isize::MAX
    );
}

#[test]
fn default_parameters_have_a_thousand_rounds() {
    assert_eq!(DEFAULT_SAMPLE_COUNT, 1000);
    assert_eq!(MeasurementParameters::default().sample_count(), 1000);
}

#[test]
fn a_run_has_a_hundred_repetitions_and_one_warm_up() {
    assert_eq!(REPETITIONS, 100);
    assert_eq!(WARMUP_REPETITIONS, 1);
}

#[test]
fn zero_samples_on_the_command_line_are_rejected_before_measuring() {
    let args = vec!["c2clat".to_string(), "-n".to_string(), "0".to_string()];
    let opt = Opt::parse(&args).unwrap();
    assert_eq!(opt.nsamples, 0);
    assert_eq!(
        opt.parameters().err(),
        Some(ConfigError::SampleCountNotPositive)
    );
}
