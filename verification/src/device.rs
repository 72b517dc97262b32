//! The supervisor's side of a session: the dispatcher that routes what the
//! device sends, the keep-alive that tells the device the supervisor is
//! there, and the device object that sets both up.

use vstd::prelude::*;
use crate::adc::{Adc, AdcHandle, AdcHandleView};
use crate::app_msg::{AppMsg, AppMsgView};
use crate::dac::{Dac, DacHandle};
use crate::error::{Error, ErrorView};
use crate::framing::{
    mcu_read_view, read_outcome, unread, MsgReader, MsgWriter, ReadError, ReaderView, WriterView,
};
use crate::mcu_msg::{decode_mcu, McuMsg, McuMsgView};
use crate::samples::{sets_view, AdcPoints, ADC_COUNT};
use crate::wire::{take_points, EncodeError};

verus! {

/// Greatest length of a frame from the device.
pub const MAX_MCU_MSG_LEN: usize = 259;

/// Greatest length of a frame to the device.
pub const MAX_APP_MSG_LEN: usize = 259;

/// Time between two keep-alive frames, in milliseconds.
pub const KEEP_ALIVE_PERIOD_MS: u64 = 100;

/// The actuator channel that the device's requests for setpoints go to.
pub const DAC_REQUEST_CHANNEL: usize = 0;

/// What the dispatcher makes of one round of reading.
#[derive(Clone, Debug, PartialEq, Eq)]
pub enum Dispatch {
    /// No whole frame has arrived yet.
    Pending,
    /// A message that asks for nothing.
    Nothing,
    /// `count` setpoints are to be sent on actuator channel `channel`.
    DacRequest { channel: usize, count: usize },
    /// Points to push, one run for each sampling channel.
    AdcData { columns: Vec<Vec<i32>> },
    /// Text to log.
    Debug { message: Vec<u8> },
}

/// What a [`Dispatch`] holds.
pub enum DispatchView {
    Pending,
    Nothing,
    DacRequest { channel: usize, count: usize },
    AdcData { columns: Seq<Seq<i32>> },
    Debug { message: Seq<u8> },
}

/// What a run of runs of points holds.
pub open spec fn runs_view(runs: Seq<Vec<i32>>) -> Seq<Seq<i32>> {
    Seq::new(runs.len(), |c: int| runs[c]@)
}

impl View for Dispatch {
    type V = DispatchView;

    open spec fn view(&self) -> DispatchView {
        match *self {
            Dispatch::Pending => DispatchView::Pending,
            Dispatch::Nothing => DispatchView::Nothing,
            Dispatch::DacRequest { channel, count } => DispatchView::DacRequest { channel, count },
            Dispatch::AdcData { columns } => DispatchView::AdcData { columns: runs_view(columns@) },
            Dispatch::Debug { message } => DispatchView::Debug { message: message@ },
        }
    }
}

/// What a result of dispatching holds.
pub open spec fn dispatched_view(res: Result<Dispatch, Error>) -> Result<DispatchView, ErrorView> {
    match res {
        Ok(d) => Ok(d@),
        Err(e) => Err(e@),
    }
}

/// The points of channel `c` in a run of sample sets, oldest first.
pub open spec fn column(sets: Seq<Seq<i32>>, c: int) -> Seq<i32> {
    Seq::new(sets.len(), |i: int| sets[i][c])
}

/// The points of a run of sample sets, channel by channel.
pub open spec fn columns(sets: Seq<Seq<i32>>) -> Seq<Seq<i32>> {
    Seq::new(ADC_COUNT as nat, |c: int| column(sets, c))
}

/// Whether every receiver has declared room for `count` elements.
pub open spec fn fits(count: nat, capacities: Seq<usize>) -> bool {
    forall|c: int| 0 <= c < capacities.len() ==> count <= #[trigger] capacities[c]
}

/// Where a message of the device goes.
///
/// A batch of sample sets goes to the sampling channels, a run of points for
/// each, if every channel has declared room for the whole batch; otherwise
/// the batch is refused as a whole. An update of the discrete input is not
/// handled, and is an error rather than something to pass over. An error
/// report of the device ends the session; its debug text does not.
pub open spec fn route(msg: McuMsgView, capacities: Seq<usize>) -> Result<
    DispatchView,
    ErrorView,
> {
    match msg {
        McuMsgView::Empty => Ok(DispatchView::Nothing),
        McuMsgView::DinUpdate { value } => Err(ErrorView::Unsupported),
        McuMsgView::DacRequest { count } => Ok(
            DispatchView::DacRequest { channel: DAC_REQUEST_CHANNEL, count: count as usize },
        ),
        McuMsgView::AdcData { points_arrays } => if fits(points_arrays.len(), capacities) {
            Ok(DispatchView::AdcData { columns: columns(points_arrays) })
        } else {
            Err(ErrorView::Oversized)
        },
        McuMsgView::Error { code, message } => Err(ErrorView::Device { code, message }),
        McuMsgView::Debug { message } => Ok(DispatchView::Debug { message }),
    }
}

/// What a round of the dispatcher comes to, for the outcome `read` of
/// reading a frame.
pub open spec fn dispatched(
    read: Result<Option<McuMsgView>, ReadError>,
    capacities: Seq<usize>,
) -> Result<DispatchView, ErrorView> {
    match read {
        Ok(Some(msg)) => route(msg, capacities),
        Ok(None) => Ok(DispatchView::Pending),
        Err(ReadError::Malformed) => Err(ErrorView::Malformed),
        Err(ReadError::Disconnected) => Err(ErrorView::Disconnected),
    }
}

/// Whether every receiver has declared room for `count` elements.
fn all_fit(count: usize, capacities: &[usize]) -> (ok: bool)
    ensures
        ok == fits(count as nat, capacities@),
{
    let mut c: usize = 0;
    while c < capacities.len()
        invariant
            0 <= c <= capacities@.len(),
            fits(count as nat, capacities@.take(c as int)),
        decreases capacities@.len() - c,
    {
        if count > capacities[c] {
            return false;
        }
        assert forall|d: int| 0 <= d < c + 1 implies count <= #[trigger] capacities@.take(
            c + 1,
        )[d] by {
            if d < c {
                assert(capacities@.take(c as int)[d] == capacities@[d]);
            }
        }
        c = c + 1;
    }
    assert(capacities@.take(c as int) =~= capacities@);
    true
}

/// Sorts the points of a run of sample sets by channel.
pub fn transpose(sets: &[AdcPoints]) -> (runs: Vec<Vec<i32>>)
    ensures
        runs_view(runs@) == columns(sets_view(sets@)),
{
    let mut runs: Vec<Vec<i32>> = Vec::new();
    let mut c: usize = 0;
    while c < ADC_COUNT
        invariant
            0 <= c <= ADC_COUNT,
            runs@.len() == c,
            forall|d: int| 0 <= d < c ==> (#[trigger] runs@[d])@ == column(sets_view(sets@), d),
        decreases ADC_COUNT - c,
    {
        let mut run: Vec<i32> = Vec::new();
        let mut i: usize = 0;
        while i < sets.len()
            invariant
                0 <= i <= sets@.len(),
                c < ADC_COUNT,
                run@ == column(sets_view(sets@), c as int).take(i as int),
            decreases sets@.len() - i,
        {
            run.push(sets[i].channel(c));
            assert(run@ =~= column(sets_view(sets@), c as int).take(i + 1));
            i = i + 1;
        }
        assert(run@ =~= column(sets_view(sets@), c as int));
        runs.push(run);
        c = c + 1;
    }
    assert(runs_view(runs@) =~= columns(sets_view(sets@)));
    runs
}

/// Decides where a message of the device goes, for receivers that have
/// declared room for `capacities` points each.
pub fn route_msg(msg: McuMsg, capacities: &[usize]) -> (res: Result<Dispatch, Error>)
    ensures
        dispatched_view(res) == route(msg@, capacities@),
{
    match msg {
        McuMsg::Empty => Ok(Dispatch::Nothing),
        McuMsg::DinUpdate { value } => Err(Error::Unsupported),
        McuMsg::DacRequest { count } => Ok(
            Dispatch::DacRequest { channel: DAC_REQUEST_CHANNEL, count: count as usize },
        ),
        McuMsg::AdcData { points_arrays } => {
            if all_fit(points_arrays.len(), capacities) {
                Ok(Dispatch::AdcData { columns: transpose(points_arrays.as_slice()) })
            } else {
                Err(Error::Oversized)
            }
        },
        McuMsg::Error { code, message } => Err(Error::Device { code, message }),
        McuMsg::Debug { message } => Ok(Dispatch::Debug { message }),
    }
}

/// Commits `values` to an array variable that holds up to `max_len`
/// elements. Values that do not fit are refused as a whole: the variable
/// keeps what it held, down to the last element.
pub fn write_array(variable: &mut Vec<i32>, max_len: usize, values: &[i32]) -> (res: Result<
    (),
    Error,
>)
    ensures
        res.is_ok() == (values@.len() <= max_len),
        res.is_ok() ==> final(variable)@ == values@,
        res.is_err() ==> res->Err_0 == Error::Oversized && final(variable)@ == old(variable)@,
{
    if values.len() > max_len {
        return Err(Error::Oversized);
    }
    let fresh = take_points(values, values.len());
    assert(values@.take(values@.len() as int) =~= values@);
    *variable = fresh;
    Ok(())
}

/// What a [`MsgDispatcher`] holds.
pub struct DispatcherView {
    pub channel: ReaderView,
    /// The room that each sampling channel has declared, in points.
    pub capacities: Seq<usize>,
}

/// Reads the frames of the device and decides where each message goes.
pub struct MsgDispatcher {
    channel: MsgReader,
    capacities: Vec<usize>,
}

impl View for MsgDispatcher {
    type V = DispatcherView;

    closed spec fn view(&self) -> DispatcherView {
        DispatcherView { channel: self.channel@, capacities: self.capacities@ }
    }
}

impl MsgDispatcher {
    /// A dispatcher that reads from `channel`.
    pub fn new(channel: MsgReader, capacities: Vec<usize>) -> (dispatcher: Self)
        ensures
            dispatcher@ == (DispatcherView { channel: channel@, capacities: capacities@ }),
    {
        MsgDispatcher { channel, capacities }
    }

    /// Takes in bytes that the transport delivered.
    pub fn feed(&mut self, bytes: &[u8])
        ensures
            final(self)@ == (DispatcherView {
                channel: ReaderView {
                    pending: old(self)@.channel.pending + bytes@,
                    ..old(self)@.channel
                },
                ..old(self)@
            }),
    {
        self.channel.feed(bytes);
    }

    /// Notes that the transport has ended.
    pub fn end(&mut self)
        ensures
            final(self)@ == (DispatcherView {
                channel: ReaderView { ended: true, ..old(self)@.channel },
                ..old(self)@
            }),
    {
        self.channel.end();
    }

    /// One round of the dispatcher: reads the next frame, if it is whole,
    /// and decides where its message goes.
    pub fn run(&mut self) -> (res: Result<Dispatch, Error>)
        ensures
            dispatched_view(res) == dispatched(
                read_outcome(
                    decode_mcu(old(self)@.channel.pending, old(self)@.channel.max_len),
                    old(self)@.channel.ended,
                ),
                old(self)@.capacities,
            ),
            final(self)@ == (DispatcherView {
                channel: ReaderView {
                    pending: unread(
                        old(self)@.channel.pending,
                        decode_mcu(old(self)@.channel.pending, old(self)@.channel.max_len),
                    ),
                    ..old(self)@.channel
                },
                ..old(self)@
            }),
    {
        match self.channel.read_mcu() {
            Ok(Some(msg)) => route_msg(msg, self.capacities.as_slice()),
            Ok(None) => Ok(Dispatch::Pending),
            Err(ReadError::Malformed) => Err(Error::Malformed),
            Err(ReadError::Disconnected) => Err(Error::Disconnected),
        }
    }
}

/// The message that a keep-alive sends next: `Connect` to open the session,
/// `KeepAlive` from then on.
pub open spec fn beat(connected: bool) -> AppMsgView {
    if connected {
        AppMsgView::KeepAlive
    } else {
        AppMsgView::Connect
    }
}

/// The time to wait before the next message is sent: none before the
/// session is opened, one period from then on.
pub open spec fn pause(connected: bool, period_ms: u64) -> u64 {
    if connected {
        period_ms
    } else {
        0
    }
}

/// The first `count` messages of a keep-alive.
pub open spec fn beats(connected: bool, count: nat) -> Seq<AppMsgView>
    decreases count,
{
    if count == 0 {
        Seq::empty()
    } else {
        seq![beat(connected)] + beats(true, (count - 1) as nat)
    }
}

/// The time from the start of a keep-alive to its message number `index`,
/// counted from zero, in milliseconds.
pub open spec fn beat_time(index: nat, period_ms: u64) -> nat {
    index * period_ms as nat
}

/// What a [`Keepalive`] holds.
pub struct KeepaliveView {
    /// The session has been opened.
    pub connected: bool,
    pub period_ms: u64,
}

/// Opens the session and then keeps telling the device that the supervisor
/// is alive.
pub struct Keepalive {
    connected: bool,
    period_ms: u64,
}

impl View for Keepalive {
    type V = KeepaliveView;

    closed spec fn view(&self) -> KeepaliveView {
        KeepaliveView { connected: self.connected, period_ms: self.period_ms }
    }
}

impl Keepalive {
    /// A keep-alive that has not opened its session yet.
    pub fn new(period_ms: u64) -> (keepalive: Self)
        ensures
            keepalive@ == (KeepaliveView { connected: false, period_ms }),
    {
        Keepalive { connected: false, period_ms }
    }

    /// The time to wait before the next message is sent, in milliseconds.
    pub fn pause(&self) -> (wait_ms: u64)
        ensures
            wait_ms == pause(self@.connected, self@.period_ms),
    {
        if self.connected {
            self.period_ms
        } else {
            0
        }
    }

    /// One round of the keep-alive: writes the next message to `channel`. If the channel refuses it,
    /// nothing was written and the keep-alive stays as it was.
    pub fn run(&mut self, channel: &mut MsgWriter) -> (res: Result<(), EncodeError>)
        ensures
            res.is_ok() == (old(channel)@.max_len >= 1),
            res.is_ok() ==> final(self)@ == (KeepaliveView { connected: true, ..old(self)@ })
                && final(channel)@ == (WriterView {
                outgoing: old(channel)@.outgoing + beat(old(self)@.connected).encode(),
                ..old(channel)@
            }),
            res.is_err() ==> res->Err_0 == EncodeError::TooLong && final(self)@ == old(self)@
                && final(channel)@ == old(channel)@,
    {
        let msg = if self.connected {
            AppMsg::KeepAlive
        } else {
            AppMsg::Connect
        };
        match channel.write_app(&msg) {
            Ok(()) => {
                self.connected = true;
                Ok(())
            },
            Err(e) => Err(e),
        }
    }
}

/// A keep-alive sends `Connect` once, as its first message, and `KeepAlive`
/// ever after; the first message goes out at once, and each later one a
/// period after the one before.
pub proof fn lemma_connect_once_then_keep_alive(count: nat, period_ms: u64)
    ensures
        beats(false, count).len() == count,
        forall|k: int|
            0 <= k < count ==> #[trigger] beats(false, count)[k] == if k == 0 {
                AppMsgView::Connect
            } else {
                AppMsgView::KeepAlive
            },
        beat_time(0, period_ms) == pause(false, period_ms),
        forall|k: nat| #[trigger]
            beat_time(k + 1, period_ms) == beat_time(k, period_ms) + pause(true, period_ms),
{
    lemma_beats(false, count);
    assert forall|k: nat| #[trigger]
        beat_time(k + 1, period_ms) == beat_time(k, period_ms) + pause(true, period_ms) by {
        assert((k + 1) * period_ms as nat == k * period_ms as nat + period_ms as nat)
            by (nonlinear_arith);
    }
}

proof fn lemma_beats(connected: bool, count: nat)
    ensures
        beats(connected, count).len() == count,
        forall|k: int|
            0 <= k < count ==> #[trigger] beats(connected, count)[k] == if k == 0 {
                beat(connected)
            } else {
                AppMsgView::KeepAlive
            },
    decreases count,
{
    if count > 0 {
        lemma_beats(true, (count - 1) as nat);
    }
}

/// The parts of a session, ready to run side by side.
pub struct DeviceTasks {
    pub dispatcher: MsgDispatcher,
    pub keepalive: Keepalive,
    /// Where every sender of the session writes its frames.
    pub writer: MsgWriter,
    pub dac: Dac,
    pub dac_handle: DacHandle,
    /// The consumer's end of every sampling channel.
    pub adcs: Vec<Adc>,
    /// The producer's end of every sampling channel.
    pub adc_handles: Vec<AdcHandle>,
}

/// The supervisor's image of the device: the two directions of the
/// transport and one adapter for each channel.
pub struct Device {
    reader: MsgReader,
    writer: MsgWriter,
    dac: Dac,
    dac_handle: DacHandle,
    adcs: Vec<Adc>,
    adc_handles: Vec<AdcHandle>,
}

/// The handle of a sampling channel that nothing was pushed to yet.
pub open spec fn fresh_handle(max_len: usize) -> AdcHandleView {
    AdcHandleView {
        queue: Seq::<i32>::empty(),
        capacity: 2 * max_len as nat,
        closed: false,
        last_point: 0,
    }
}

impl Device {
    /// The batch length of every sampling channel.
    pub closed spec fn spec_max_lens(&self) -> Seq<usize> {
        Seq::new(self.adcs@.len(), |c: int| self.adcs@[c].spec_max_len())
    }

    /// The invariant of the device: nothing has been read, written or
    /// pushed yet, and the two ends of every channel belong together.
    pub closed spec fn wf(&self) -> bool {
        &&& self.reader@ == (ReaderView {
            pending: Seq::<u8>::empty(),
            max_len: MAX_MCU_MSG_LEN,
            ended: false,
        })
        &&& self.writer@ == (WriterView { outgoing: Seq::<u8>::empty(), max_len: MAX_APP_MSG_LEN })
        &&& self.dac_handle@ == 0
        &&& self.dac.spec_max_points() == (MAX_APP_MSG_LEN - 3) / 4
        &&& self.adcs@.len() == self.adc_handles@.len()
        &&& forall|c: int|
            0 <= c < self.adcs@.len() ==> (#[trigger] self.adc_handles@[c]).wf()
                && self.adc_handles@[c]@ == fresh_handle(self.adcs@[c].spec_max_len())
    }

    /// A device with one sampling channel for each entry of `adc_max_len`,
    /// which gives the batch length of the channel's array variable.
    pub fn new(adc_max_len: &[usize]) -> (device: Self)
        requires
            forall|c: int|
                0 <= c < adc_max_len@.len() ==> 0 < #[trigger] adc_max_len@[c] <= usize::MAX / 16,
        ensures
            device.wf(),
            device.spec_max_lens() == adc_max_len@,
    {
        let (dac, dac_handle) = Dac::new(MAX_APP_MSG_LEN);
        let mut adcs: Vec<Adc> = Vec::new();
        let mut adc_handles: Vec<AdcHandle> = Vec::new();
        let mut c: usize = 0;
        while c < adc_max_len.len()
            invariant
                0 <= c <= adc_max_len@.len(),
                adcs@.len() == c,
                adc_handles@.len() == c,
                forall|d: int|
                    0 <= d < adc_max_len@.len() ==> 0 < #[trigger] adc_max_len@[d] <= usize::MAX
                        / 16,
                forall|d: int|
                    0 <= d < c ==> (#[trigger] adcs@[d]).spec_max_len() == adc_max_len@[d],
                forall|d: int|
                    0 <= d < c ==> (#[trigger] adc_handles@[d]).wf() && adc_handles@[d]@
                        == fresh_handle(adc_max_len@[d]),
            decreases adc_max_len@.len() - c,
        {
            let (adc, handle) = Adc::new(adc_max_len[c]);
            adcs.push(adc);
            adc_handles.push(handle);
            c = c + 1;
        }
        let device = Device {
            reader: MsgReader::new(MAX_MCU_MSG_LEN),
            writer: MsgWriter::new(MAX_APP_MSG_LEN),
            dac,
            dac_handle,
            adcs,
            adc_handles,
        };
        assert(device.spec_max_lens() =~= adc_max_len@);
        device
    }

    /// Takes the device apart into the tasks of a session. The dispatcher
    /// gets the reading direction of the transport and learns how much room
    /// every sampling channel has; the keep-alive has not opened the session
    /// yet.
    pub fn run(self) -> (tasks: DeviceTasks)
        requires
            self.wf(),
        ensures
            tasks.dispatcher@ == (DispatcherView {
                channel: ReaderView {
                    pending: Seq::<u8>::empty(),
                    max_len: MAX_MCU_MSG_LEN,
                    ended: false,
                },
                capacities: Seq::new(
                    self.spec_max_lens().len(),
                    |c: int| (2 * self.spec_max_lens()[c]) as usize,
                ),
            }),
            tasks.keepalive@ == (KeepaliveView {
                connected: false,
                period_ms: KEEP_ALIVE_PERIOD_MS,
            }),
            tasks.writer@ == (WriterView {
                outgoing: Seq::<u8>::empty(),
                max_len: MAX_APP_MSG_LEN,
            }),
            tasks.dac_handle@ == 0,
            tasks.dac.spec_max_points() == (MAX_APP_MSG_LEN - 3) / 4,
            tasks.adcs@.len() == self.spec_max_lens().len(),
            tasks.adc_handles@.len() == self.spec_max_lens().len(),
            forall|c: int|
                0 <= c < self.spec_max_lens().len() ==> (#[trigger] tasks.adcs@[c]).spec_max_len()
                    == self.spec_max_lens()[c],
            forall|c: int|
                0 <= c < self.spec_max_lens().len() ==> (#[trigger] tasks.adc_handles@[c]).wf()
                    && tasks.adc_handles@[c]@ == fresh_handle(self.spec_max_lens()[c]),
    {
        let mut capacities: Vec<usize> = Vec::new();
        let mut c: usize = 0;
        while c < self.adc_handles.len()
            invariant
                self.wf(),
                0 <= c <= self.adc_handles@.len(),
                capacities@.len() == c,
                forall|d: int|
                    0 <= d < c ==> #[trigger] capacities@[d] == 2 * self.spec_max_lens()[d],
            decreases self.adc_handles@.len() - c,
        {
            proof {
                self.adc_handles@[c as int].lemma_bounded();
            }
            capacities.push(self.adc_handles[c].capacity());
            c = c + 1;
        }
        assert(capacities@ =~= Seq::new(
            self.spec_max_lens().len(),
            |c: int| (2 * self.spec_max_lens()[c]) as usize,
        ));
        DeviceTasks {
            dispatcher: MsgDispatcher::new(self.reader, capacities),
            keepalive: Keepalive::new(KEEP_ALIVE_PERIOD_MS),
            writer: self.writer,
            dac: self.dac,
            dac_handle: self.dac_handle,
            adcs: self.adcs,
            adc_handles: self.adc_handles,
        }
    }
}

} // verus!
