//! Measurement parameters and their validation.

use vstd::prelude::*;

verus! {

/// Number of outer repetitions of the handshake for one pair of cores.
pub const REPETITIONS: usize = 100;

/// Number of outer repetitions whose timing is thrown away as warm-up.
pub const WARMUP_REPETITIONS: usize = 1;

/// Rounds per repetition when the configuration does not say otherwise.
pub const DEFAULT_SAMPLE_COUNT: isize = 1000;

/// Why a configuration was turned down before any measurement started.
#[derive(Debug, Clone, Copy, PartialEq, Eq, Structural)]
pub enum ConfigError {
    /// The sample count was zero or negative.
    SampleCountNotPositive,
    /// The sample count was not a decimal number that fits the machine word.
    SampleCountNotNumeric,
}

/// The validated, read-only parameters of a run.
#[derive(Debug, Clone, Copy)]
pub struct MeasurementParameters {
    sample_count: isize,
}

impl MeasurementParameters {
    /// The number of handshake rounds in one repetition.
    pub closed spec fn rounds(&self) -> int {
        self.sample_count as int
    }

    /// Every value of this type that the library hands out has at least
    /// one round per repetition, so the reduction never divides by zero.
    pub open spec fn wf(&self) -> bool {
        self.rounds() >= 1
    }

    /// Accepts a sample count of one or more and turns down anything else.
    pub fn new(sample_count: isize) -> (r: Result<MeasurementParameters, ConfigError>)
        ensures
            sample_count >= 1 ==> r is Ok && r->Ok_0.wf() && r->Ok_0.rounds() == sample_count,
            sample_count < 1 ==> r == Err::<MeasurementParameters, ConfigError>(
                ConfigError::SampleCountNotPositive,
            ),
    {
        if sample_count >= 1 {
            Ok(MeasurementParameters { sample_count })
        } else {
            Err(ConfigError::SampleCountNotPositive)
        }
    }

    /// The number of handshake rounds in one repetition.
    pub fn sample_count(&self) -> (n: isize)
        ensures
            n == self.rounds(),
    {
        self.sample_count
    }
}

impl Default for MeasurementParameters {
    fn default() -> (p: MeasurementParameters)
        ensures
            p.wf(),
            p.rounds() == DEFAULT_SAMPLE_COUNT,
    {
        MeasurementParameters { sample_count: DEFAULT_SAMPLE_COUNT }
    }
}

} // verus!
