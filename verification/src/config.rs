//! What a deployment chooses.
use vstd::prelude::*;
use crate::double::Double;
use crate::stats::THREE_BITS;

verus! {

/// The settings of the monitor.
#[derive(Clone, Copy, Debug)]
pub struct Settings {
    /// How many records of the log make one window.
    pub record_count: u32,
    /// How many standard deviations from the mean make an outlier.
    pub threshold: Double,
    /// The seconds between two ticks.
    pub interval_seconds: u64,
    /// The fractional digits to which numbers are written.
    pub digits: usize,
    /// The seconds that any one step of a fetch may block.
    pub timeout_seconds: u64,
}

impl Default for Settings {
    /// A window of 60 records, outliers from 3.0 deviations on, a tick
    /// every 5 seconds, numbers to 3 places, 10 seconds for a step.
    fn default() -> (settings: Settings)
        ensures
            settings.record_count == 60,
            settings.threshold.bits == THREE_BITS,
            settings.interval_seconds == 5,
            settings.digits == 3,
            settings.timeout_seconds == 10,
    {
        Settings {
            record_count: 60,
            threshold: Double::from_bits(THREE_BITS),
            interval_seconds: 5,
            digits: 3,
            timeout_seconds: 10,
        }
    }
}

} // verus!
