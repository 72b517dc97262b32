//! The real-time control task, as a state machine.
//!
//! One tick exchanges one actuator setpoint for one fresh sample set. The
//! hardware work is done by the caller: [`Control::step`] is told what the
//! hardware did and answers with what to do next. A tick runs through
//! `Start`, `Sync`, `Din` and `Transfer`, in that order.

use vstd::prelude::*;
use crate::buffers::{PointBuffer, pushed, remaining};
use crate::handle::{ControlHandle, Din, HandleView};
use crate::samples::{AdcBuffer, AdcPoints};
use crate::stats::{bumped, AdcStatistics, DacStatistics, Statistics};

verus! {

/// The setpoint that is sent until the first one arrives: the middle of the
/// actuator's range.
pub const DAC_IDLE_POINT: i32 = 0x7fff;

/// Where the control task stands within a tick.
#[derive(Clone, Copy, Debug, PartialEq, Eq)]
pub enum Phase {
    /// Between two ticks.
    Idle,
    /// Waiting for the hardware synchronisation edge.
    WaitSync,
    /// Waiting for the discrete input to be read.
    Discrete,
    /// Waiting for the transfer to end.
    Transfer,
    /// Stopped by a fatal condition. Nothing leaves this phase.
    Halted,
}

/// How waiting for the synchronisation edge ended.
#[derive(Clone, Copy, Debug, PartialEq, Eq)]
pub enum SyncOutcome {
    Ready,
    TimedOut,
    Failed,
}

/// How a hardware transfer ended.
#[derive(Clone, Copy, Debug, PartialEq, Eq)]
pub enum TransferOutcome {
    /// The transfer delivered a fresh sample set.
    Done(AdcPoints),
    /// The received data failed the integrity check.
    InvalidData,
    /// Any other failure.
    Failed,
}

/// What the hardware side reports to the control task.
#[derive(Clone, Copy, Debug, PartialEq, Eq)]
pub enum Event {
    /// A new tick begins.
    Start,
    /// Waiting for the synchronisation edge ended.
    Sync(SyncOutcome),
    /// The discrete input was read.
    Din(Din),
    /// The transfer ended.
    Transfer(TransferOutcome),
}

/// Why the control task stopped.
#[derive(Clone, Copy, Debug, PartialEq, Eq)]
pub enum Fault {
    /// The hardware failed in a way that cannot be retried.
    Hardware,
    /// An event arrived in a phase that does not expect it.
    Protocol,
}

/// What the hardware side has to do next.
#[derive(Clone, Copy, Debug, PartialEq, Eq)]
pub enum Action {
    /// Pass the enable flag to the hardware, wait for the synchronisation
    /// edge and report `Event::Sync`.
    AwaitSync { dac_enabled: bool },
    /// Write the discrete output if there is one, read the discrete input and
    /// report `Event::Din`.
    Discrete { dout: Option<u8> },
    /// Exchange the setpoint for a sample set and report `Event::Transfer`.
    Transfer { dac: i32 },
    /// The tick is complete. Raise the readiness signal once if `notify`.
    Complete { notify: bool },
    /// Stop the task.
    Fatal(Fault),
}

/// What a [`Control`] holds.
pub struct ControlView {
    pub phase: Phase,
    /// Something became ready in the current tick.
    pub ready: bool,
    /// Actuation runs in the current tick.
    pub dac_running: bool,
    /// The setpoint sent last.
    pub dac_last: i32,
    /// Setpoints still to consume before the next signal.
    pub dac_counter: usize,
    /// Setpoints waiting to be sent, oldest first.
    pub dac_queue: Seq<i32>,
    pub dac_capacity: nat,
    /// The sample set received last.
    pub adc_last: AdcPoints,
    /// Sample sets still to produce before the next signal.
    pub adc_counter: usize,
    /// Sample sets waiting to be collected, oldest first.
    pub adc_queue: Seq<Seq<i32>>,
    pub adc_capacity: nat,
    pub stats: Statistics,
}

/// The value a notify counter restarts from: one less than the threshold,
/// and zero for a threshold of zero.
pub open spec fn reload(every: usize) -> usize {
    if every > 0 {
        (every - 1) as usize
    } else {
        0
    }
}

/// The number of readiness signals that an action asks for.
pub open spec fn signals(action: Action) -> nat {
    match action {
        Action::Complete { notify: true } => 1,
        _ => 0,
    }
}

/// A tick begins, or begins again after a timeout: the enable flag goes to
/// the hardware, and nothing is ready yet.
pub open spec fn begin(c: ControlView, h: HandleView) -> (ControlView, HandleView, Action) {
    (
        ControlView { phase: Phase::WaitSync, ready: false, dac_running: h.dac_enabled, ..c },
        h,
        Action::AwaitSync { dac_enabled: h.dac_enabled },
    )
}

/// The synchronisation edge came: a changed discrete output is taken to be
/// written.
pub open spec fn discrete(c: ControlView, h: HandleView) -> (ControlView, HandleView, Action) {
    (
        ControlView { phase: Phase::Discrete, ..c },
        HandleView { dout_changed: false, ..h },
        Action::Discrete {
            dout: if h.dout_changed {
                Some(h.dout)
            } else {
                None
            },
        },
    )
}

/// The discrete input was read: it is latched, and the next setpoint is
/// chosen. A running actuation takes the oldest queued setpoint; without one,
/// and when actuation does not run, the last setpoint is sent again.
pub open spec fn setpoint(c: ControlView, h: HandleView, din: Din) -> (
    ControlView,
    HandleView,
    Action,
) {
    let changed = h.din != din;
    let popping = c.dac_running && c.dac_queue.len() > 0;
    let starving = c.dac_running && c.dac_queue.len() == 0;
    let underflow = popping && c.dac_counter == 0;
    let dac = if popping {
        c.dac_queue[0]
    } else {
        c.dac_last
    };
    (
        ControlView {
            phase: Phase::Transfer,
            ready: c.ready || changed || underflow,
            dac_last: dac,
            dac_counter: if underflow {
                reload(h.dac_notify_every)
            } else if popping {
                (c.dac_counter - 1) as usize
            } else {
                c.dac_counter
            },
            dac_queue: if popping {
                c.dac_queue.drop_first()
            } else {
                c.dac_queue
            },
            stats: if starving {
                Statistics {
                    dac: DacStatistics { lost_empty: bumped(c.stats.dac.lost_empty) },
                    ..c.stats
                }
            } else {
                c.stats
            },
            ..c
        },
        h.with_din(din),
        Action::Transfer { dac },
    )
}

/// The transfer ended with a sample set or with an integrity error, in which
/// case the previous sample set stands in. The set is queued if there is
/// room and counted as lost if there is none, and the tick is complete.
pub open spec fn finish(c: ControlView, h: HandleView, outcome: TransferOutcome) -> (
    ControlView,
    HandleView,
    Action,
) {
    let points = match outcome {
        TransferOutcome::Done(points) => points,
        _ => c.adc_last,
    };
    let full = c.adc_queue.len() >= c.adc_capacity;
    let underflow = c.adc_counter == 0;
    let ready = c.ready || underflow;
    (
        ControlView {
            phase: Phase::Idle,
            ready,
            adc_last: points,
            adc_counter: if underflow {
                reload(h.adc_notify_every)
            } else {
                (c.adc_counter - 1) as usize
            },
            adc_queue: if full {
                c.adc_queue
            } else {
                c.adc_queue.push(points@)
            },
            stats: Statistics {
                sample_count: bumped(c.stats.sample_count),
                crc_error_count: if outcome is InvalidData {
                    bumped(c.stats.crc_error_count)
                } else {
                    c.stats.crc_error_count
                },
                dac: c.stats.dac,
                adcs: AdcStatistics {
                    lost_full: if full {
                        bumped(c.stats.adcs.lost_full)
                    } else {
                        c.stats.adcs.lost_full
                    },
                    last: points,
                },
            },
            ..c
        },
        HandleView { ready: h.ready || ready, ..h },
        Action::Complete { notify: ready },
    )
}

/// The task stops.
pub open spec fn halt(c: ControlView, h: HandleView, fault: Fault) -> (
    ControlView,
    HandleView,
    Action,
) {
    (ControlView { phase: Phase::Halted, ..c }, h, Action::Fatal(fault))
}

/// The transition of the control task: the state after `event`, and the
/// action it asks for.
///
/// A timeout of the synchronisation wait starts the wait again and loses
/// nothing. A transfer that fails its integrity check is counted and goes on
/// with the previous sample set. Every other failure, and every event that
/// the phase does not expect, stops the task.
pub open spec fn step(c: ControlView, h: HandleView, event: Event) -> (
    ControlView,
    HandleView,
    Action,
) {
    match (c.phase, event) {
        (Phase::Idle, Event::Start) => begin(c, h),
        (Phase::WaitSync, Event::Sync(SyncOutcome::TimedOut)) => begin(c, h),
        (Phase::WaitSync, Event::Sync(SyncOutcome::Ready)) => discrete(c, h),
        (Phase::WaitSync, Event::Sync(SyncOutcome::Failed)) => halt(c, h, Fault::Hardware),
        (Phase::Discrete, Event::Din(din)) => setpoint(c, h, din),
        (Phase::Transfer, Event::Transfer(TransferOutcome::Failed)) => halt(c, h, Fault::Hardware),
        (Phase::Transfer, Event::Transfer(outcome)) => finish(c, h, outcome),
        _ => halt(c, h, Fault::Protocol),
    }
}

/// The actuator side of the control task.
struct ControlDac {
    running: bool,
    buffer: PointBuffer,
    last_point: i32,
    counter: usize,
}

/// The sampling side of the control task.
struct ControlAdc {
    buffer: AdcBuffer,
    last_point: AdcPoints,
    counter: usize,
}

/// The control task: it takes setpoints from one queue, feeds sample sets
/// into another, and keeps count of what it does.
pub struct Control {
    dac: ControlDac,
    adc: ControlAdc,
    stats: Statistics,
    phase: Phase,
    ready: bool,
}

impl View for Control {
    type V = ControlView;

    closed spec fn view(&self) -> ControlView {
        ControlView {
            phase: self.phase,
            ready: self.ready,
            dac_running: self.dac.running,
            dac_last: self.dac.last_point,
            dac_counter: self.dac.counter,
            dac_queue: self.dac.buffer@,
            dac_capacity: self.dac.buffer.spec_capacity(),
            adc_last: self.adc.last_point,
            adc_counter: self.adc.counter,
            adc_queue: self.adc.buffer@,
            adc_capacity: self.adc.buffer.spec_capacity(),
            stats: self.stats,
        }
    }
}

impl Control {
    /// The invariant of the task: both of its queues are well formed.
    pub closed spec fn wf(&self) -> bool {
        &&& self.dac.buffer.wf()
        &&& self.adc.buffer.wf()
    }

    /// What `wf` says of the view.
    pub proof fn lemma_bounded(&self)
        requires
            self.wf(),
        ensures
            self@.dac_queue.len() <= self@.dac_capacity,
            self@.adc_queue.len() <= self@.adc_capacity,
    {
        self.dac.buffer.lemma_bounded();
        self.adc.buffer.lemma_bounded();
    }

    /// A control task between two ticks, with its handle. It takes over the
    /// two queues as they are.
    pub fn new(dac_buf: PointBuffer, adc_buf: AdcBuffer, stats: Statistics) -> (made: (
        Self,
        ControlHandle,
    ))
        requires
            dac_buf.wf(),
            adc_buf.wf(),
        ensures
            made.0.wf(),
            made.1@ == HandleView::initial(),
            made.0@ == (ControlView {
                phase: Phase::Idle,
                ready: false,
                dac_running: false,
                dac_last: DAC_IDLE_POINT,
                dac_counter: 0,
                dac_queue: dac_buf@,
                dac_capacity: dac_buf.spec_capacity(),
                adc_last: AdcPoints { values: [0i32, 0, 0, 0, 0, 0] },
                adc_counter: 0,
                adc_queue: adc_buf@,
                adc_capacity: adc_buf.spec_capacity(),
                stats,
            }),
    {
        (
            Control {
                dac: ControlDac {
                    running: false,
                    buffer: dac_buf,
                    last_point: DAC_IDLE_POINT,
                    counter: 0,
                },
                adc: ControlAdc {
                    buffer: adc_buf,
                    last_point: AdcPoints { values: [0i32, 0, 0, 0, 0, 0] },
                    counter: 0,
                },
                stats,
                phase: Phase::Idle,
                ready: false,
            },
            ControlHandle::new(),
        )
    }

    pub fn phase(&self) -> (phase: Phase)
        ensures
            phase == self@.phase,
    {
        self.phase
    }

    /// The counters as they stand.
    pub fn stats(&self) -> (stats: Statistics)
        ensures
            stats == self@.stats,
    {
        self.stats
    }

    /// Puts the counters back to zero.
    pub fn reset_stats(&mut self)
        ensures
            final(self)@ == (ControlView { stats: Statistics::zero(), ..old(self)@ }),
            old(self).wf() ==> final(self).wf(),
    {
        self.stats.reset();
    }

    /// Queues setpoints for the coming ticks, as many as there is room for,
    /// and returns how many were taken.
    pub fn push_setpoints(&mut self, points: &[i32]) -> (count: usize)
        requires
            old(self).wf(),
        ensures
            final(self).wf(),
            count == points@.len() - crate::buffers::dropped(
                old(self)@.dac_queue,
                old(self)@.dac_capacity,
                points@,
            ),
            final(self)@ == (ControlView {
                dac_queue: pushed(old(self)@.dac_queue, old(self)@.dac_capacity, points@),
                ..old(self)@
            }),
    {
        self.dac.buffer.push_slice(points)
    }

    /// Collects the oldest queued sample set, if there is one.
    pub fn pop_samples(&mut self) -> (res: Option<AdcPoints>)
        requires
            old(self).wf(),
        ensures
            final(self).wf(),
            final(self)@ == (ControlView {
                adc_queue: remaining(old(self)@.adc_queue, 1),
                ..old(self)@
            }),
            old(self)@.adc_queue.len() > 0 ==> res.is_some() && res->Some_0@ == old(
                self,
            )@.adc_queue[0],
            old(self)@.adc_queue.len() == 0 ==> res.is_none(),
    {
        self.adc.buffer.pop()
    }

    fn begin(&mut self, handle: &ControlHandle) -> (action: Action)
        requires
            old(self).wf(),
        ensures
            final(self).wf(),
            (final(self)@, handle@, action) == begin(old(self)@, handle@),
    {
        let enabled = handle.dac_mode();
        self.ready = false;
        self.dac.running = enabled;
        self.phase = Phase::WaitSync;
        Action::AwaitSync { dac_enabled: enabled }
    }

    fn discrete(&mut self, handle: &mut ControlHandle) -> (action: Action)
        requires
            old(self).wf(),
        ensures
            final(self).wf(),
            (final(self)@, final(handle)@, action) == discrete(old(self)@, old(handle)@),
    {
        let dout = handle.take_dout();
        self.phase = Phase::Discrete;
        Action::Discrete { dout }
    }

    fn setpoint(&mut self, handle: &mut ControlHandle, din: Din) -> (action: Action)
        requires
            old(self).wf(),
        ensures
            final(self).wf(),
            (final(self)@, final(handle)@, action) == setpoint(old(self)@, old(handle)@, din),
    {
        if handle.update_din(din) {
            self.ready = true;
        }
        if self.dac.running {
            match self.dac.buffer.pop() {
                Some(value) => {
                    self.dac.last_point = value;
                    if self.dac.counter > 0 {
                        self.dac.counter = self.dac.counter - 1;
                    } else {
                        let every = handle.notify_every().0;
                        self.dac.counter = if every > 0 {
                            every - 1
                        } else {
                            0
                        };
                        self.ready = true;
                    }
                },
                None => {
                    self.stats.report_lost_empty();
                },
            }
        }
        self.phase = Phase::Transfer;
        Action::Transfer { dac: self.dac.last_point }
    }

    fn finish(&mut self, handle: &mut ControlHandle, outcome: TransferOutcome) -> (action: Action)
        requires
            old(self).wf(),
            !(outcome is Failed),
        ensures
            final(self).wf(),
            (final(self)@, final(handle)@, action) == finish(old(self)@, old(handle)@, outcome),
    {
        proof {
            self.adc.buffer.lemma_bounded();
        }
        let points = match outcome {
            TransferOutcome::Done(points) => {
                self.adc.last_point = points;
                points
            },
            _ => {
                self.stats.report_crc_error();
                self.adc.last_point
            },
        };
        self.stats.update_values(points);
        if self.adc.buffer.push(points).is_err() {
            self.stats.report_lost_full();
        }
        if self.adc.counter > 0 {
            self.adc.counter = self.adc.counter - 1;
        } else {
            let every = handle.notify_every().1;
            self.adc.counter = if every > 0 {
                every - 1
            } else {
                0
            };
            self.ready = true;
        }
        if self.ready {
            handle.notify();
        }
        self.stats.report_sample();
        self.phase = Phase::Idle;
        Action::Complete { notify: self.ready }
    }

    fn halt(&mut self, fault: Fault) -> (action: Action)
        requires
            old(self).wf(),
        ensures
            final(self).wf(),
            final(self)@ == (ControlView { phase: Phase::Halted, ..old(self)@ }),
            action == Action::Fatal(fault),
    {
        self.phase = Phase::Halted;
        Action::Fatal(fault)
    }

    /// Takes the task one step further: tells it what the hardware did, and
    /// returns what the hardware has to do next.
    pub fn step(&mut self, handle: &mut ControlHandle, event: Event) -> (action: Action)
        requires
            old(self).wf(),
        ensures
            final(self).wf(),
            (final(self)@, final(handle)@, action) == step(old(self)@, old(handle)@, event),
    {
        match (self.phase, event) {
            (Phase::Idle, Event::Start) => self.begin(handle),
            (Phase::WaitSync, Event::Sync(SyncOutcome::TimedOut)) => self.begin(handle),
            (Phase::WaitSync, Event::Sync(SyncOutcome::Ready)) => self.discrete(handle),
            (Phase::WaitSync, Event::Sync(SyncOutcome::Failed)) => self.halt(Fault::Hardware),
            (Phase::Discrete, Event::Din(din)) => self.setpoint(handle, din),
            (Phase::Transfer, Event::Transfer(TransferOutcome::Failed)) => self.halt(
                Fault::Hardware,
            ),
            (Phase::Transfer, Event::Transfer(outcome)) => self.finish(handle, outcome),
            _ => self.halt(Fault::Protocol),
        }
    }
}

/// One whole tick that meets no timeout: the state after it, and the number
/// of readiness signals that its four actions ask for.
pub open spec fn tick(c: ControlView, h: HandleView, din: Din, outcome: TransferOutcome) -> (
    ControlView,
    HandleView,
    nat,
) {
    let s0 = step(c, h, Event::Start);
    let s1 = step(s0.0, s0.1, Event::Sync(SyncOutcome::Ready));
    let s2 = step(s1.0, s1.1, Event::Din(din));
    let s3 = step(s2.0, s2.1, Event::Transfer(outcome));
    (s3.0, s3.1, signals(s0.2) + signals(s1.2) + signals(s2.2) + signals(s3.2))
}

/// The state after one tick for each of `dins` in which the transfer failed
/// its integrity check.
pub open spec fn integrity_error_ticks(c: ControlView, h: HandleView, dins: Seq<Din>) -> (
    ControlView,
    HandleView,
)
    decreases dins.len(),
{
    if dins.len() == 0 {
        (c, h)
    } else {
        let before = integrity_error_ticks(c, h, dins.drop_last());
        let after = tick(before.0, before.1, dins.last(), TransferOutcome::InvalidData);
        (after.0, after.1)
    }
}

/// A tick asks for one readiness signal if anything became ready in it, and
/// for none otherwise: the discrete input changed, the setpoint counter ran
/// out, or the sample counter ran out. Several reasons make one signal.
pub proof fn lemma_one_signal_per_tick(
    c: ControlView,
    h: HandleView,
    din: Din,
    outcome: TransferOutcome,
)
    requires
        c.phase == Phase::Idle,
        !(outcome is Failed),
    ensures
        tick(c, h, din, outcome).2 == if h.din != din || (h.dac_enabled && c.dac_queue.len() > 0
            && c.dac_counter == 0) || c.adc_counter == 0 {
            1nat
        } else {
            0nat
        },
        tick(c, h, din, outcome).2 == 1 ==> tick(c, h, din, outcome).1.ready,
        tick(c, h, din, outcome).2 == 0 ==> tick(c, h, din, outcome).1.ready == h.ready,
{
}

/// A tick in which the setpoint counter and the sample counter both run out
/// asks for exactly one readiness signal, and leaves the signal pending.
pub proof fn lemma_underflows_coalesce(
    c: ControlView,
    h: HandleView,
    din: Din,
    outcome: TransferOutcome,
)
    requires
        c.phase == Phase::Idle,
        !(outcome is Failed),
        h.dac_enabled,
        c.dac_queue.len() > 0,
        c.dac_counter == 0,
        c.adc_counter == 0,
    ensures
        tick(c, h, din, outcome).2 == 1,
        tick(c, h, din, outcome).1.ready,
        tick(c, h, din, outcome).0.dac_counter == reload(h.dac_notify_every),
        tick(c, h, din, outcome).0.adc_counter == reload(h.adc_notify_every),
{
}

/// A timeout of the synchronisation wait starts the wait again and changes
/// nothing else: no setpoint and no sample set is lost, and no counter moves.
pub proof fn lemma_timeout_loses_nothing(c: ControlView, h: HandleView)
    requires
        c.phase == Phase::WaitSync,
    ensures
        step(c, h, Event::Sync(SyncOutcome::TimedOut)).0 == (ControlView {
            ready: false,
            dac_running: h.dac_enabled,
            ..c
        }),
        step(c, h, Event::Sync(SyncOutcome::TimedOut)).1 == h,
        step(c, h, Event::Sync(SyncOutcome::TimedOut)).2 == (Action::AwaitSync {
            dac_enabled: h.dac_enabled,
        }),
{
}

/// A sample set that finds the queue full is dropped and counted: the queue
/// keeps what it held, and the count of lost sets grows by one.
pub proof fn lemma_full_queue_drops_sample(c: ControlView, h: HandleView, points: AdcPoints)
    requires
        c.phase == Phase::Transfer,
        c.adc_queue.len() >= c.adc_capacity,
    ensures
        step(c, h, Event::Transfer(TransferOutcome::Done(points))).0.adc_queue == c.adc_queue,
        step(c, h, Event::Transfer(TransferOutcome::Done(points))).0.stats.adcs.lost_full == bumped(
            c.stats.adcs.lost_full,
        ),
        step(c, h, Event::Transfer(TransferOutcome::Done(points))).0.adc_last == points,
{
}

/// Ticks whose transfers fail the integrity check keep the sample set that
/// was received last, queue it again as far as there is room, and count one
/// error each.
pub proof fn lemma_integrity_errors_keep_sample(c: ControlView, h: HandleView, dins: Seq<Din>)
    requires
        c.phase == Phase::Idle,
        c.adc_queue.len() <= c.adc_capacity,
        c.stats.crc_error_count + dins.len() <= u64::MAX,
    ensures
        integrity_error_ticks(c, h, dins).0.phase == Phase::Idle,
        integrity_error_ticks(c, h, dins).0.adc_last == c.adc_last,
        dins.len() > 0 ==> integrity_error_ticks(c, h, dins).0.stats.adcs.last == c.adc_last,
        integrity_error_ticks(c, h, dins).0.stats.crc_error_count == c.stats.crc_error_count
            + dins.len(),
        integrity_error_ticks(c, h, dins).0.adc_capacity == c.adc_capacity,
        integrity_error_ticks(c, h, dins).0.adc_queue == pushed(
            c.adc_queue,
            c.adc_capacity,
            Seq::new(dins.len(), |i: int| c.adc_last@),
        ),
    decreases dins.len(),
{
    let again = Seq::new(dins.len(), |i: int| c.adc_last@);
    if dins.len() == 0 {
        assert(again.take(0) =~= Seq::<Seq<i32>>::empty());
        assert(pushed(c.adc_queue, c.adc_capacity, again) =~= c.adc_queue);
    } else {
        let fewer = dins.drop_last();
        lemma_integrity_errors_keep_sample(c, h, fewer);
        let before = integrity_error_ticks(c, h, fewer);
        let shorter = Seq::new(fewer.len(), |i: int| c.adc_last@);
        let queue = pushed(c.adc_queue, c.adc_capacity, shorter);
        assert(before.0.adc_queue == queue);
        let after = tick(before.0, before.1, dins.last(), TransferOutcome::InvalidData);
        if queue.len() >= c.adc_capacity {
            assert(pushed(c.adc_queue, c.adc_capacity, again) =~= queue);
        } else {
            assert(pushed(c.adc_queue, c.adc_capacity, again) =~= queue.push(c.adc_last@));
        }
    }
}

} // verus!
