//! The state that the control task shares with the tasks around it: enable
//! flag, latched discrete values with their change flags, notify thresholds,
//! and the readiness signal.

use vstd::prelude::*;

verus! {

/// Discrete input: one bit per line.
pub type Din = u8;

/// Largest value of the four discrete output lines.
pub const DOUT_MAX: u8 = 15;

/// Discrete output: one bit for each of four lines.
#[derive(Clone, Copy, Debug, PartialEq, Eq)]
pub struct Dout {
    raw: u8,
}

impl View for Dout {
    type V = u8;

    closed spec fn view(&self) -> u8 {
        self.raw
    }
}

impl Dout {
    #[verifier::type_invariant]
    closed spec fn in_range(&self) -> bool {
        self.raw <= DOUT_MAX
    }

    /// The output value with the given bits.
    pub fn new(raw: u8) -> (value: Self)
        requires
            raw <= DOUT_MAX,
        ensures
            value@ == raw,
    {
        Dout { raw }
    }

    /// The output value with the given bits, if they fit the four lines.
    pub fn checked(raw: u8) -> (value: Option<Self>)
        ensures
            value.is_some() == (raw <= DOUT_MAX),
            value.is_some() ==> value->Some_0@ == raw,
    {
        if raw <= DOUT_MAX {
            Some(Dout { raw })
        } else {
            None
        }
    }

    /// The bits of the value, which always fit the four lines.
    pub fn raw(&self) -> (raw: u8)
        ensures
            raw == self@,
            raw <= DOUT_MAX,
    {
        proof {
            use_type_invariant(self);
        }
        self.raw
    }
}

/// What a [`ControlHandle`] holds.
pub struct HandleView {
    /// A readiness signal is pending. Signals do not add up.
    pub ready: bool,
    /// Actuation is wanted.
    pub dac_enabled: bool,
    /// Latched discrete input.
    pub din: u8,
    /// Latched discrete output.
    pub dout: u8,
    /// The latched input changed since it was last taken.
    pub din_changed: bool,
    /// The latched output changed since it was last written to the hardware.
    pub dout_changed: bool,
    /// Number of setpoints to consume between two signals.
    pub dac_notify_every: usize,
    /// Number of sample sets to produce between two signals.
    pub adc_notify_every: usize,
}

/// State shared between the control task, the discrete-input interrupt and
/// the tasks that configure and observe them.
pub struct ControlHandle {
    ready: bool,
    dac_enabled: bool,
    din: u8,
    dout: u8,
    din_changed: bool,
    dout_changed: bool,
    dac_notify_every: usize,
    adc_notify_every: usize,
}

impl View for ControlHandle {
    type V = HandleView;

    closed spec fn view(&self) -> HandleView {
        HandleView {
            ready: self.ready,
            dac_enabled: self.dac_enabled,
            din: self.din,
            dout: self.dout,
            din_changed: self.din_changed,
            dout_changed: self.dout_changed,
            dac_notify_every: self.dac_notify_every,
            adc_notify_every: self.adc_notify_every,
        }
    }
}

impl HandleView {
    /// The handle of a task that has not been configured yet.
    pub open spec fn initial() -> HandleView {
        HandleView {
            ready: false,
            dac_enabled: false,
            din: 0,
            dout: 0,
            din_changed: false,
            dout_changed: false,
            dac_notify_every: 0,
            adc_notify_every: 0,
        }
    }

    /// Latching the discrete input `value`: the change flag is raised when
    /// the value differs from the latched one, and is never lowered.
    pub open spec fn with_din(self, value: u8) -> HandleView {
        HandleView { din: value, din_changed: self.din_changed || self.din != value, ..self }
    }
}

impl ControlHandle {
    pub fn new() -> (handle: Self)
        ensures
            handle@ == HandleView::initial(),
    {
        ControlHandle {
            ready: false,
            dac_enabled: false,
            din: 0,
            dout: 0,
            din_changed: false,
            dout_changed: false,
            dac_notify_every: 0,
            adc_notify_every: 0,
        }
    }

    /// Sets after how many setpoints and after how many sample sets the
    /// control task signals readiness.
    pub fn configure(&mut self, dac_notify_every: usize, adc_notify_every: usize)
        ensures
            final(self)@ == (HandleView { dac_notify_every, adc_notify_every, ..old(self)@ }),
    {
        self.dac_notify_every = dac_notify_every;
        self.adc_notify_every = adc_notify_every;
    }

    /// Raises the readiness signal. Raising a pending signal changes nothing.
    pub fn notify(&mut self)
        ensures
            final(self)@ == (HandleView { ready: true, ..old(self)@ }),
    {
        self.ready = true;
    }

    /// Takes the readiness signal: returns whether one was pending, and
    /// leaves none pending.
    pub fn wait_ready(&mut self) -> (taken: bool)
        ensures
            taken == old(self)@.ready,
            final(self)@ == (HandleView { ready: false, ..old(self)@ }),
    {
        let taken = self.ready;
        self.ready = false;
        taken
    }

    pub fn set_dac_mode(&mut self, enabled: bool)
        ensures
            final(self)@ == (HandleView { dac_enabled: enabled, ..old(self)@ }),
    {
        self.dac_enabled = enabled;
    }

    /// Whether actuation is wanted.
    pub fn dac_mode(&self) -> (enabled: bool)
        ensures
            enabled == self@.dac_enabled,
    {
        self.dac_enabled
    }

    /// The configured thresholds, for setpoints and for sample sets.
    pub fn notify_every(&self) -> (every: (usize, usize))
        ensures
            every == (self@.dac_notify_every, self@.adc_notify_every),
    {
        (self.dac_notify_every, self.adc_notify_every)
    }

    /// Latches a discrete input value and returns whether it differs from the
    /// one latched before.
    pub fn update_din(&mut self, value: Din) -> (changed: bool)
        ensures
            changed == (old(self)@.din != value),
            final(self)@ == old(self)@.with_din(value),
    {
        let changed = self.din != value;
        self.din = value;
        if changed {
            self.din_changed = true;
        }
        changed
    }

    /// What the discrete-input interrupt does with a new value: it latches
    /// the value and, if it changed, raises the readiness signal. Returns
    /// whether the signal was raised.
    pub fn din_interrupt(&mut self, value: Din) -> (raised: bool)
        ensures
            raised == (old(self)@.din != value),
            final(self)@ == (HandleView {
                ready: old(self)@.ready || raised,
                ..old(self)@.with_din(value)
            }),
    {
        let changed = self.update_din(value);
        if changed {
            self.ready = true;
        }
        changed
    }

    /// The latched discrete input, once for every change: `Some` if it
    /// changed since it was last taken.
    pub fn take_din(&mut self) -> (value: Option<Din>)
        ensures
            value == (if old(self)@.din_changed {
                Some(old(self)@.din)
            } else {
                None
            }),
            final(self)@ == (HandleView { din_changed: false, ..old(self)@ }),
    {
        let changed = self.din_changed;
        self.din_changed = false;
        if changed {
            Some(self.din)
        } else {
            None
        }
    }

    /// Latches a discrete output value, to be written to the hardware by the
    /// next tick if it differs from the one latched before.
    pub fn set_dout(&mut self, value: Dout)
        ensures
            final(self)@ == (HandleView {
                dout: value@,
                dout_changed: old(self)@.dout_changed || old(self)@.dout != value@,
                ..old(self)@
            }),
    {
        let raw = value.raw();
        if self.dout != raw {
            self.dout_changed = true;
        }
        self.dout = raw;
    }

    /// The latched discrete output, once for every change: `Some` if it
    /// changed since it was last taken.
    pub fn take_dout(&mut self) -> (value: Option<u8>)
        ensures
            value == (if old(self)@.dout_changed {
                Some(old(self)@.dout)
            } else {
                None
            }),
            final(self)@ == (HandleView { dout_changed: false, ..old(self)@ }),
    {
        let changed = self.dout_changed;
        self.dout_changed = false;
        if changed {
            Some(self.dout)
        } else {
            None
        }
    }
}

} // verus!
