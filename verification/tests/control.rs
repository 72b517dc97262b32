use daqlink::buffers::PointBuffer;
use daqlink::control::{
    Action, Control, Event, Fault, Phase, SyncOutcome, TransferOutcome, DAC_IDLE_POINT,
};
use daqlink::handle::{ControlHandle, Dout, DOUT_MAX};
use daqlink::samples::{AdcBuffer, AdcPoints};
use daqlink::stats::Statistics;

fn set(base: i32) -> AdcPoints {
    AdcPoints { values: [base, base + 1, base + 2, base + 3, base + 4, base + 5] }
}

fn control(dac_capacity: usize, adc_capacity: usize) -> (Control, ControlHandle) {
    Control::new(PointBuffer::new(dac_capacity), AdcBuffer::new(adc_capacity), Statistics::new())
}

/// Runs one tick without a timeout and returns its last action.
fn tick(c: &mut Control, h: &mut ControlHandle, din: u8, outcome: TransferOutcome) -> (i32, Action) {
    assert!(matches!(c.step(h, Event::Start), Action::AwaitSync { .. }));
    assert!(matches!(c.step(h, Event::Sync(SyncOutcome::Ready)), Action::Discrete { .. }));
    let dac: i32 = match c.step(h, Event::Din(din)) {
        Action::Transfer { dac } => dac,
        other => panic!("unexpected action {:?}", other),
    };
    (dac, c.step(h, Event::Transfer(outcome)))
}

#[test]
fn handle_starts_idle() {
    let mut h = ControlHandle::new();
    assert!(!h.dac_mode());
    assert_eq!(h.notify_every(), (0, 0));
    assert_eq!(h.take_din(), None);
    assert_eq!(h.take_dout(), None);
    assert!(!h.wait_ready());
}

#[test]
fn configure_sets_both_thresholds() {
    let mut h = ControlHandle::new();
    h.configure(7, 11);
    assert_eq!(h.notify_every(), (7, 11));
    h.set_dac_mode(true);
    assert!(h.dac_mode());
    h.set_dac_mode(false);
    assert!(!h.dac_mode());
}

#[test]
fn readiness_signals_do_not_add_up() {
    let mut h = ControlHandle::new();
    h.notify();
    h.notify();
    h.notify();
    assert!(h.wait_ready());
    assert!(!h.wait_ready());
}

#[test]
fn din_change_is_taken_once() {
    let mut h = ControlHandle::new();
    assert!(!h.update_din(0));
    assert_eq!(h.take_din(), None);
    assert!(h.update_din(3));
    assert!(h.update_din(9));
    assert!(!h.update_din(9));
    assert_eq!(h.take_din(), Some(9));
    assert_eq!(h.take_din(), None);
}

#[test]
fn din_interrupt_raises_signal_on_change_only() {
    let mut h = ControlHandle::new();
    assert!(!h.din_interrupt(0));
    assert!(!h.wait_ready());
    assert!(h.din_interrupt(0x81));
    assert!(h.wait_ready());
    assert_eq!(h.take_din(), Some(0x81));
    assert!(!h.din_interrupt(0x81));
    assert!(!h.wait_ready());
}

#[test]
fn dout_is_four_bits() {
    assert_eq!(DOUT_MAX, 15);
    assert_eq!(Dout::checked(15).map(|d| d.raw()), Some(15));
    assert_eq!(Dout::checked(16), None);
    assert_eq!(Dout::checked(255), None);
    assert_eq!(Dout::new(9).raw(), 9);
}

#[test]
fn dout_change_is_written_once() {
    let mut h = ControlHandle::new();
    h.set_dout(Dout::new(0));
    assert_eq!(h.take_dout(), None);
    h.set_dout(Dout::new(5));
    h.set_dout(Dout::new(6));
    assert_eq!(h.take_dout(), Some(6));
    assert_eq!(h.take_dout(), None);
    h.set_dout(Dout::new(6));
    assert_eq!(h.take_dout(), None);
}

#[test]
fn first_tick_sends_idle_point_and_queues_sample() {
    let (mut c, mut h) = control(4, 4);
    assert_eq!(c.phase(), Phase::Idle);
    assert_eq!(c.stats(), Statistics::new());
    assert_eq!(c.step(&mut h, Event::Start), Action::AwaitSync { dac_enabled: false });
    assert_eq!(c.phase(), Phase::WaitSync);
    assert_eq!(c.step(&mut h, Event::Sync(SyncOutcome::Ready)), Action::Discrete { dout: None });
    assert_eq!(c.phase(), Phase::Discrete);
    assert_eq!(c.step(&mut h, Event::Din(0)), Action::Transfer { dac: 0x7fff });
    assert_eq!(DAC_IDLE_POINT, 0x7fff);
    assert_eq!(c.phase(), Phase::Transfer);
    assert_eq!(
        c.step(&mut h, Event::Transfer(TransferOutcome::Done(set(10)))),
        Action::Complete { notify: true }
    );
    assert_eq!(c.phase(), Phase::Idle);
    let stats = c.stats();
    assert_eq!(stats.sample_count, 1);
    assert_eq!(stats.crc_error_count, 0);
    assert_eq!(stats.dac.lost_empty, 0);
    assert_eq!(stats.adcs.lost_full, 0);
    assert_eq!(stats.adcs.last, set(10));
    assert_eq!(c.pop_samples(), Some(set(10)));
    assert_eq!(c.pop_samples(), None);
    assert!(h.wait_ready());
}

#[test]
fn sync_timeout_is_retried_and_loses_nothing() {
    let (mut c, mut h) = control(4, 4);
    assert_eq!(c.push_setpoints(&[1, 2]), 2);
    h.set_dac_mode(true);
    assert_eq!(c.step(&mut h, Event::Start), Action::AwaitSync { dac_enabled: true });
    for _ in 0..3 {
        assert_eq!(
            c.step(&mut h, Event::Sync(SyncOutcome::TimedOut)),
            Action::AwaitSync { dac_enabled: true }
        );
        assert_eq!(c.phase(), Phase::WaitSync);
    }
    assert_eq!(c.stats(), Statistics::new());
    assert_eq!(c.step(&mut h, Event::Sync(SyncOutcome::Ready)), Action::Discrete { dout: None });
    assert_eq!(c.step(&mut h, Event::Din(0)), Action::Transfer { dac: 1 });
}

#[test]
fn changed_dout_is_written_in_next_tick() {
    let (mut c, mut h) = control(1, 1);
    h.set_dout(Dout::new(0xa));
    assert_eq!(c.step(&mut h, Event::Start), Action::AwaitSync { dac_enabled: false });
    assert_eq!(
        c.step(&mut h, Event::Sync(SyncOutcome::Ready)),
        Action::Discrete { dout: Some(0xa) }
    );
    assert_eq!(h.take_dout(), None);
}

#[test]
fn din_change_marks_tick_ready() {
    let (mut c, mut h) = control(1, 8);
    h.configure(0, 100);
    let (_, first) = tick(&mut c, &mut h, 0, TransferOutcome::Done(set(0)));
    assert_eq!(first, Action::Complete { notify: true });
    assert!(h.wait_ready());
    let (_, quiet) = tick(&mut c, &mut h, 0, TransferOutcome::Done(set(0)));
    assert_eq!(quiet, Action::Complete { notify: false });
    assert!(!h.wait_ready());
    let (_, changed) = tick(&mut c, &mut h, 4, TransferOutcome::Done(set(0)));
    assert_eq!(changed, Action::Complete { notify: true });
    assert!(h.wait_ready());
    assert_eq!(h.take_din(), Some(4));
}

#[test]
fn setpoints_are_sent_in_order_while_actuation_runs() {
    let (mut c, mut h) = control(4, 8);
    assert_eq!(c.push_setpoints(&[100, 200]), 2);
    let (idle, _) = tick(&mut c, &mut h, 0, TransferOutcome::Done(set(0)));
    assert_eq!(idle, 0x7fff);
    h.set_dac_mode(true);
    let (a, _) = tick(&mut c, &mut h, 0, TransferOutcome::Done(set(0)));
    let (b, _) = tick(&mut c, &mut h, 0, TransferOutcome::Done(set(0)));
    let (held, _) = tick(&mut c, &mut h, 0, TransferOutcome::Done(set(0)));
    assert_eq!((a, b, held), (100, 200, 200));
    assert_eq!(c.stats().dac.lost_empty, 1);
    h.set_dac_mode(false);
    let (off, _) = tick(&mut c, &mut h, 0, TransferOutcome::Done(set(0)));
    assert_eq!(off, 200);
    assert_eq!(c.stats().dac.lost_empty, 1);
    assert_eq!(c.stats().sample_count, 5);
}

#[test]
fn setpoint_queue_overflow_is_counted_by_caller() {
    let (mut c, _h) = control(2, 1);
    assert_eq!(c.push_setpoints(&[1, 2, 3]), 2);
    assert_eq!(c.push_setpoints(&[4]), 0);
}

#[test]
fn sample_counter_reloads_from_threshold_minus_one() {
    let (mut c, mut h) = control(1, 64);
    h.configure(0, 3);
    let mut notified: Vec<bool> = Vec::new();
    for _ in 0..7 {
        let (_, last) = tick(&mut c, &mut h, 0, TransferOutcome::Done(set(0)));
        notified.push(last == Action::Complete { notify: true });
    }
    assert_eq!(notified, vec![true, false, false, true, false, false, true]);
}

#[test]
fn zero_threshold_notifies_every_tick() {
    let (mut c, mut h) = control(1, 64);
    for _ in 0..3 {
        let (_, last) = tick(&mut c, &mut h, 0, TransferOutcome::Done(set(0)));
        assert_eq!(last, Action::Complete { notify: true });
    }
}

#[test]
fn setpoint_counter_reloads_from_threshold_minus_one() {
    let (mut c, mut h) = control(8, 64);
    h.configure(2, 1000);
    h.set_dac_mode(true);
    assert_eq!(c.push_setpoints(&[1, 2, 3, 4, 5]), 5);
    let mut notified: Vec<bool> = Vec::new();
    for _ in 0..5 {
        let (_, last) = tick(&mut c, &mut h, 0, TransferOutcome::Done(set(0)));
        notified.push(last == Action::Complete { notify: true });
    }
    assert_eq!(notified, vec![true, false, true, false, true]);
}

#[test]
fn two_underflows_in_one_tick_make_one_signal() {
    let (mut c, mut h) = control(4, 4);
    h.configure(5, 5);
    h.set_dac_mode(true);
    assert_eq!(c.push_setpoints(&[42]), 1);
    let mut signals: u32 = 0;
    for event in [
        Event::Start,
        Event::Sync(SyncOutcome::Ready),
        Event::Din(0),
        Event::Transfer(TransferOutcome::Done(set(1))),
    ] {
        if c.step(&mut h, event) == (Action::Complete { notify: true }) {
            signals += 1;
        }
    }
    assert_eq!(signals, 1);
    assert!(h.wait_ready());
    assert!(!h.wait_ready());
}

#[test]
fn five_integrity_errors_keep_sample_and_are_counted() {
    let (mut c, mut h) = control(1, 16);
    let (_, first) = tick(&mut c, &mut h, 0, TransferOutcome::Done(set(50)));
    assert_eq!(first, Action::Complete { notify: true });
    assert_eq!(c.pop_samples(), Some(set(50)));
    for n in 1..=5u64 {
        let (_, last) = tick(&mut c, &mut h, 0, TransferOutcome::InvalidData);
        assert!(matches!(last, Action::Complete { .. }));
        assert_eq!(c.phase(), Phase::Idle);
        assert_eq!(c.stats().adcs.last, set(50));
        assert_eq!(c.stats().crc_error_count, n);
        assert_eq!(c.pop_samples(), Some(set(50)));
        assert_eq!(c.pop_samples(), None);
    }
    assert_eq!(c.stats().crc_error_count, 5);
    assert_eq!(c.stats().sample_count, 6);
}

#[test]
fn integrity_error_before_any_sample_repeats_zero_set() {
    let (mut c, mut h) = control(1, 2);
    let (_, last) = tick(&mut c, &mut h, 0, TransferOutcome::InvalidData);
    assert_eq!(last, Action::Complete { notify: true });
    assert_eq!(c.pop_samples(), Some(AdcPoints::default()));
    assert_eq!(c.stats().crc_error_count, 1);
}

#[test]
fn full_sample_queue_drops_and_counts() {
    let (mut c, mut h) = control(1, 2);
    for base in [1, 2, 3, 4] {
        let _ = tick(&mut c, &mut h, 0, TransferOutcome::Done(set(base)));
    }
    assert_eq!(c.stats().adcs.lost_full, 2);
    assert_eq!(c.stats().adcs.last, set(4));
    assert_eq!(c.stats().sample_count, 4);
    assert_eq!(c.pop_samples(), Some(set(1)));
    assert_eq!(c.pop_samples(), Some(set(2)));
    assert_eq!(c.pop_samples(), None);
}

#[test]
fn hardware_failure_stops_the_task() {
    let (mut c, mut h) = control(1, 1);
    assert_eq!(c.step(&mut h, Event::Start), Action::AwaitSync { dac_enabled: false });
    assert_eq!(c.step(&mut h, Event::Sync(SyncOutcome::Failed)), Action::Fatal(Fault::Hardware));
    assert_eq!(c.phase(), Phase::Halted);
    assert_eq!(c.step(&mut h, Event::Start), Action::Fatal(Fault::Protocol));
    assert_eq!(c.phase(), Phase::Halted);

    let (mut c, mut h) = control(1, 1);
    let _ = c.step(&mut h, Event::Start);
    let _ = c.step(&mut h, Event::Sync(SyncOutcome::Ready));
    let _ = c.step(&mut h, Event::Din(1));
    assert_eq!(
        c.step(&mut h, Event::Transfer(TransferOutcome::Failed)),
        Action::Fatal(Fault::Hardware)
    );
    assert_eq!(c.phase(), Phase::Halted);
    assert_eq!(c.stats().sample_count, 0);
    assert_eq!(c.pop_samples(), None);
}

#[test]
fn unexpected_event_stops_the_task() {
    let (mut c, mut h) = control(1, 1);
    assert_eq!(c.step(&mut h, Event::Din(3)), Action::Fatal(Fault::Protocol));
    assert_eq!(c.phase(), Phase::Halted);
    assert_eq!(h.take_din(), None);
}

#[test]
fn counters_stay_at_their_largest_value() {
    let mut stats = Statistics::new();
    stats.sample_count = u64::MAX - 1;
    stats.report_sample();
    assert_eq!(stats.sample_count, u64::MAX);
    stats.report_sample();
    assert_eq!(stats.sample_count, u64::MAX);
    stats.report_crc_error();
    stats.report_lost_empty();
    stats.report_lost_full();
    stats.update_values(set(3));
    assert_eq!(stats.crc_error_count, 1);
    assert_eq!(stats.dac.lost_empty, 1);
    assert_eq!(stats.adcs.lost_full, 1);
    assert_eq!(stats.adcs.last, set(3));
    stats.reset();
    assert_eq!(stats, Statistics::new());
}

#[test]
fn reset_clears_task_statistics_only() {
    let (mut c, mut h) = control(1, 4);
    let _ = tick(&mut c, &mut h, 0, TransferOutcome::Done(set(9)));
    assert_eq!(c.stats().sample_count, 1);
    c.reset_stats();
    assert_eq!(c.stats(), Statistics::new());
    assert_eq!(c.pop_samples(), Some(set(9)));
}
