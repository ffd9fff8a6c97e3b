//! What can end a run.
//!
//! Every failure is final. Each one points at the configuration or at the
//! platform, so nothing is tried again, and a run that fails gives no
//! partial result.

use vstd::prelude::*;
use vstd::std_specs::convert::FromSpecImpl;
use crate::params::ConfigError;
use crate::text::{decimal, push_decimal};

verus! {

/// Why a run ended without a result.
#[derive(Debug, Clone, Copy, PartialEq, Eq, Structural)]
pub enum MeasureError {
    /// The affinity query failed, so the cores are not known.
    TopologyUnavailable,
    /// A thread could not be bound to the core it was meant for.
    PinFailure { core: usize },
    /// The configuration was turned down before any measurement began.
    InvalidConfiguration(ConfigError),
    /// The responder thread ended abnormally.
    ResponderFailure,
}

impl From<ConfigError> for MeasureError {
    fn from(e: ConfigError) -> (r: MeasureError) {
        MeasureError::InvalidConfiguration(e)
    }
}

impl FromSpecImpl<ConfigError> for MeasureError {
    open spec fn obeys_from_spec() -> bool {
        true
    }

    open spec fn from_spec(e: ConfigError) -> MeasureError {
        MeasureError::InvalidConfiguration(e)
    }
}

impl MeasureError {
    /// The message for the user.
    pub open spec fn spec_diagnostic(self) -> Seq<char> {
        match self {
            MeasureError::TopologyUnavailable => "sched_getaffinity failed"@,
            MeasureError::PinFailure { core } => "could not pin a thread to core "@ + decimal(
                core as int,
            ),
            MeasureError::InvalidConfiguration(ConfigError::SampleCountNotPositive) =>
                "the number of samples must be at least 1"@,
            MeasureError::InvalidConfiguration(ConfigError::SampleCountNotNumeric) =>
                "Please number"@,
            MeasureError::ResponderFailure => "the responder thread ended abnormally"@,
        }
    }

    /// The message for the user.
    pub fn diagnostic(&self) -> (text: String)
        ensures
            text@ == self.spec_diagnostic(),
    {
        match self {
            MeasureError::TopologyUnavailable => String::from_str("sched_getaffinity failed"),
            MeasureError::PinFailure { core } => {
                let mut text = String::from_str("could not pin a thread to core ");
                push_decimal(&mut text, *core as u128);
                text
            },
            MeasureError::InvalidConfiguration(ConfigError::SampleCountNotPositive) => {
                String::from_str("the number of samples must be at least 1")
            },
            MeasureError::InvalidConfiguration(ConfigError::SampleCountNotNumeric) => {
                String::from_str("Please number")
            },
            MeasureError::ResponderFailure => String::from_str(
                "the responder thread ended abnormally",
            ),
        }
    }
}

/// What the end of the responder thread amounts to. A responder that did
/// not run to its end takes the whole run with it.
pub fn responder_outcome(ran_to_its_end: bool) -> (r: Result<(), MeasureError>)
    ensures
        ran_to_its_end ==> r is Ok,
        !ran_to_its_end ==> r == Err::<(), MeasureError>(MeasureError::ResponderFailure),
{
    if ran_to_its_end {
        Ok(())
    } else {
        Err(MeasureError::ResponderFailure)
    }
}

} // verus!
