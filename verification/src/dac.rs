//! The actuation adapter of the supervisor: it answers the device's requests
//! for setpoints with batches from an array variable.

use vstd::prelude::*;
use crate::app_msg::{AppMsg, AppMsgView};
use crate::buffers::min_nat;
use crate::mcu_msg::MAX_COUNT;
use crate::wire::take_points;

verus! {

/// Where the dispatcher leaves the device's requests for setpoints.
pub struct DacHandle {
    requested: usize,
}

impl View for DacHandle {
    type V = usize;

    /// The number of setpoints that were asked for and not yet sent.
    closed spec fn view(&self) -> usize {
        self.requested
    }
}

/// The sum of two counts, staying at the largest value once it is reached.
pub open spec fn capped_sum(a: usize, b: usize) -> usize {
    if a + b <= usize::MAX {
        (a + b) as usize
    } else {
        usize::MAX
    }
}

impl DacHandle {
    /// The number of setpoints that were asked for and not yet sent.
    pub fn requested(&self) -> (count: usize)
        ensures
            count == self@,
    {
        self.requested
    }

    /// Notes that the device asked for `count` more setpoints.
    pub fn request(&mut self, count: usize)
        ensures
            final(self)@ == capped_sum(old(self)@, count),
    {
        self.requested = self.requested.saturating_add(count);
    }
}

/// Forwards setpoints of one actuator channel to the device.
pub struct Dac {
    max_points: usize,
}

/// How many setpoints go into the next batch: what was asked for, as far as
/// the variable holds it and one frame has room for it.
pub open spec fn batch_len(requested: usize, at_hand: nat, max_points: usize) -> nat {
    min_nat(min_nat(requested as nat, at_hand), max_points as nat)
}

impl Dac {
    /// The two ends of an actuator channel whose frames hold up to
    /// `max_len` bytes.
    pub fn new(max_len: usize) -> (ends: (Self, DacHandle))
        ensures
            ends.0.spec_max_points() == min_nat(
                if max_len >= 3 {
                    ((max_len - 3) / 4) as nat
                } else {
                    0
                },
                MAX_COUNT as nat,
            ),
            ends.1@ == 0,
    {
        let room = if max_len >= 3 {
            (max_len - 3) / 4
        } else {
            0
        };
        let max_points = if room < MAX_COUNT {
            room
        } else {
            MAX_COUNT
        };
        (Dac { max_points }, DacHandle { requested: 0 })
    }

    /// The greatest number of setpoints in one batch.
    pub closed spec fn spec_max_points(&self) -> usize {
        self.max_points
    }

    /// The greatest number of setpoints in one batch.
    pub fn max_points(&self) -> (count: usize)
        ensures
            count == self.spec_max_points(),
    {
        self.max_points
    }

    /// Answers what the device asked for with one batch: the first of
    /// `values`, as many as `batch_len` says. Without a request nothing is
    /// sent. What was asked for counts as answered afterwards.
    pub fn forward(&self, handle: &mut DacHandle, values: &[i32]) -> (msg: Option<AppMsg>)
        ensures
            final(handle)@ == 0,
            msg.is_some() == (old(handle)@ > 0),
            msg.is_some() ==> msg->Some_0@ == (AppMsgView::DacData {
                points: values@.take(
                    batch_len(old(handle)@, values@.len(), self.spec_max_points()) as int,
                ),
            }),
    {
        let requested = handle.requested;
        handle.requested = 0;
        if requested == 0 {
            return None;
        }
        let mut count = requested;
        if values.len() < count {
            count = values.len();
        }
        if self.max_points < count {
            count = self.max_points;
        }
        let points = take_points(values, count);
        Some(AppMsg::DacData { points })
    }
}

} // verus!
