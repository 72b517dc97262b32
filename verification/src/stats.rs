//! Counters that the real-time tick keeps about its own work.

use vstd::prelude::*;
use crate::samples::AdcPoints;

verus! {

/// One more than `count`, staying at the largest value once it is reached.
pub open spec fn bumped(count: u64) -> u64 {
    if count < u64::MAX {
        (count + 1) as u64
    } else {
        count
    }
}

/// What the tick records about the actuator side.
#[derive(Clone, Copy, Debug, PartialEq, Eq)]
pub struct DacStatistics {
    /// Ticks in which actuation was running and no setpoint was queued.
    pub lost_empty: u64,
}

/// What the tick records about the sampling side.
#[derive(Clone, Copy, Debug, PartialEq, Eq)]
pub struct AdcStatistics {
    /// Sample sets that found the sampling queue full and were dropped.
    pub lost_full: u64,
    /// The sample set that the latest tick worked with.
    pub last: AdcPoints,
}

/// Counters of the control task. They only ever grow, until `reset`.
#[derive(Clone, Copy, Debug, PartialEq, Eq)]
pub struct Statistics {
    /// Completed ticks.
    pub sample_count: u64,
    /// Transfers that failed their integrity check.
    pub crc_error_count: u64,
    pub dac: DacStatistics,
    pub adcs: AdcStatistics,
}

impl Statistics {
    /// The statistics of a task that has not run yet.
    pub open spec fn zero() -> Statistics {
        Statistics {
            sample_count: 0,
            crc_error_count: 0,
            dac: DacStatistics { lost_empty: 0 },
            adcs: AdcStatistics { lost_full: 0, last: AdcPoints { values: [0i32, 0, 0, 0, 0, 0] } },
        }
    }

    pub fn new() -> (stats: Self)
        ensures
            stats == Statistics::zero(),
    {
        Statistics {
            sample_count: 0,
            crc_error_count: 0,
            dac: DacStatistics { lost_empty: 0 },
            adcs: AdcStatistics { lost_full: 0, last: AdcPoints { values: [0i32, 0, 0, 0, 0, 0] } },
        }
    }

    /// Puts every counter back to zero.
    pub fn reset(&mut self)
        ensures
            *final(self) == Statistics::zero(),
    {
        *self = Statistics::new();
    }

    /// Counts one completed tick.
    pub fn report_sample(&mut self)
        ensures
            *final(self) == (Statistics { sample_count: bumped(old(self).sample_count), ..*old(self) }),
    {
        self.sample_count = self.sample_count.saturating_add(1);
    }

    /// Counts one transfer that failed its integrity check.
    pub fn report_crc_error(&mut self)
        ensures
            *final(self) == (Statistics {
                crc_error_count: bumped(old(self).crc_error_count),
                ..*old(self)
            }),
    {
        self.crc_error_count = self.crc_error_count.saturating_add(1);
    }

    /// Counts one tick that found the actuator queue empty.
    pub fn report_lost_empty(&mut self)
        ensures
            *final(self) == (Statistics {
                dac: DacStatistics { lost_empty: bumped(old(self).dac.lost_empty) },
                ..*old(self)
            }),
    {
        self.dac.lost_empty = self.dac.lost_empty.saturating_add(1);
    }

    /// Counts one sample set that was dropped because the sampling queue was full.
    pub fn report_lost_full(&mut self)
        ensures
            *final(self) == (Statistics {
                adcs: AdcStatistics { lost_full: bumped(old(self).adcs.lost_full), ..old(self).adcs },
                ..*old(self)
            }),
    {
        self.adcs.lost_full = self.adcs.lost_full.saturating_add(1);
    }

    /// Records the sample set that the current tick works with.
    pub fn update_values(&mut self, points: AdcPoints)
        ensures
            *final(self) == (Statistics {
                adcs: AdcStatistics { last: points, ..old(self).adcs },
                ..*old(self)
            }),
    {
        self.adcs.last = points;
    }
}

} // verus!
