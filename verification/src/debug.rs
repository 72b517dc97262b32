//! The service channel of the supervisor: requests to reset the device's
//! counters.

use vstd::prelude::*;
use crate::app_msg::{AppMsg, AppMsgView};

verus! {

/// The service channel of the supervisor. It has no state of its own and
/// only makes its handle.
pub enum Debug {
    /// The one service channel of a session.
    Service,
}

/// Turns writes to the reset variable into reset requests.
pub struct DebugHandle {
    resets: u64,
}

impl View for DebugHandle {
    type V = u64;

    /// The number of reset requests made so far.
    closed spec fn view(&self) -> u64 {
        self.resets
    }
}

impl Debug {
    pub fn new() -> (handle: DebugHandle)
        ensures
            handle@ == 0,
    {
        DebugHandle { resets: 0 }
    }
}

impl DebugHandle {
    /// The number of reset requests made so far.
    pub fn resets(&self) -> (count: u64)
        ensures
            count == self@,
    {
        self.resets
    }

    /// What a write of `value` to the reset variable asks for: a reset of
    /// the device's counters if the value is not zero, and nothing if it is.
    pub fn stats_reset(&mut self, value: i32) -> (msg: Option<AppMsg>)
        ensures
            msg.is_some() == (value != 0),
            msg.is_some() ==> msg->Some_0@ == AppMsgView::StatsReset,
            final(self)@ == if value != 0 {
                crate::stats::bumped(old(self)@)
            } else {
                old(self)@
            },
    {
        if value != 0 {
            self.resets = self.resets.saturating_add(1);
            Some(AppMsg::StatsReset)
        } else {
            None
        }
    }
}

} // verus!
