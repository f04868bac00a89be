use garden::codec::{decode_message, encode_command};
use garden::environment::BME688SensorReport;
use garden::field::{
    accept_command, frame_message, handle_command, moisture_ticker, Bme688, CycleAction, CycleEvent, CyclePhase, ListenWindow,
    Measurement, RadioPoll, Reaction, TransmitCycle, LISTEN_SLOTS,
};
use garden::flags::{DeviceStatus, StatusFlags};
use garden::moisture::{select_levels, Moisture, State, Step, StepAction};
use garden::protocol::{Command, DevAddr, Message, Transmission};
use garden::readings::MoistureReading;

#[test]
fn three_channel_cycle_visits_channels_in_order() {
    let mut m = Moisture::<3>::new();
    assert_eq!(m.step_state(1_000), Step { action: StepAction::Begin, delay_secs: 1 });
    assert!(!m.is_reading_ready());
    m.tick_count();
    m.tick_count();
    assert_eq!(m.step_state(2_000), Step { action: StepAction::Select(1), delay_secs: 1 });
    assert!(!m.is_reading_ready());
    m.tick_count();
    assert_eq!(m.step_state(3_500), Step { action: StepAction::Select(2), delay_secs: 1 });
    assert!(!m.is_reading_ready());
    for _ in 0..5 {
        m.tick_count();
    }
    assert_eq!(m.step_state(4_250), Step { action: StepAction::Finish, delay_secs: 60 });
    assert!(m.is_reading_ready());
    let report = m.format_message();
    assert_eq!(
        report.moisture.to_vec(),
        vec![
            MoistureReading { clocks: 2, duration_ms: 1_000 },
            MoistureReading { clocks: 1, duration_ms: 1_500 },
            MoistureReading { clocks: 5, duration_ms: 750 },
        ]
    );
}

#[test]
fn new_cycle_clears_readings() {
    let mut m = Moisture::<1>::new();
    assert!(!m.is_reading_ready());
    m.step_state(0);
    m.tick_count();
    assert_eq!(m.step_state(10).action, StepAction::Finish);
    assert!(m.is_reading_ready());
    assert_eq!(m.step_state(20).action, StepAction::Begin);
    assert!(!m.is_reading_ready());
    assert_eq!(m.step_state(30).action, StepAction::Finish);
    assert_eq!(m.format_message().moisture.to_vec(), vec![MoistureReading { clocks: 0, duration_ms: 10 }]);
}

#[test]
fn clock_going_backwards_gives_zero_duration() {
    let mut m = Moisture::<1>::new();
    m.step_state(500);
    m.step_state(100);
    assert_eq!(m.format_message().moisture.to_vec(), vec![MoistureReading { clocks: 0, duration_ms: 0 }]);
}

#[test]
fn edge_count_saturates() {
    let mut m = Moisture::<1>::new();
    m.step_state(0);
    for _ in 0..70_000u32 {
        m.tick_count();
    }
    m.step_state(1);
    assert_eq!(m.format_message().moisture.to_vec(), vec![MoistureReading { clocks: u16::MAX, duration_ms: 1 }]);
}

#[test]
fn select_lines_follow_channel_bits() {
    assert_eq!(select_levels(0), (false, false, false));
    assert_eq!(select_levels(1), (true, false, false));
    assert_eq!(select_levels(2), (false, true, false));
    assert_eq!(select_levels(5), (true, false, true));
    assert_eq!(select_levels(7), (true, true, true));
}

#[test]
fn moisture_state_names() {
    assert_ne!(State::Off, State::Measuring(0, 0));
}

#[test]
fn sync_to_same_flags_is_idempotent() {
    let mut status = DeviceStatus { flags: StatusFlags::pump() };
    let r = handle_command(&mut status, Command::SyncFlags(StatusFlags::pump()));
    assert_eq!(status.flags, StatusFlags::pump());
    assert_eq!(r, Reaction::Apply { pump_on: true, valve_open: false, update: DeviceStatus { flags: StatusFlags::pump() } });
}

#[test]
fn sync_drives_each_line() {
    let mut status = DeviceStatus { flags: StatusFlags::pump() };
    let r = handle_command(&mut status, Command::SyncFlags(StatusFlags::valve()));
    assert_eq!(status.flags, StatusFlags::valve());
    assert_eq!(r, Reaction::Apply { pump_on: false, valve_open: true, update: DeviceStatus { flags: StatusFlags::valve() } });
}

#[test]
fn reset_asks_for_reboot() {
    let mut status = DeviceStatus { flags: StatusFlags::all() };
    assert_eq!(handle_command(&mut status, Command::Reset), Reaction::Reboot);
    assert_eq!(status.flags, StatusFlags::all());
}

#[test]
fn field_unit_frames_from_its_address() {
    let bytes = frame_message(Message::StatusUpdate(DeviceStatus { flags: StatusFlags::empty() }));
    assert_eq!(bytes, vec![0x69, 0, 2, 0]);
    assert_eq!(decode_message(&bytes).unwrap().src, DevAddr(0x69));
}

#[test]
fn commands_from_base_accepted_others_dropped() {
    let from_base = encode_command(&Transmission { src: DevAddr(69), msg: Command::Reset });
    assert_eq!(accept_command(&from_base), Some(Command::Reset));
    let from_self = encode_command(&Transmission { src: DevAddr(0x69), msg: Command::Reset });
    assert_eq!(accept_command(&from_self), None);
    assert_eq!(accept_command(&[1, 2]), None);
}

#[test]
fn listen_window_runs_its_slots() {
    let mut w = ListenWindow::new();
    assert_eq!(w.remaining, LISTEN_SLOTS);
    let frame = encode_command(&Transmission { src: DevAddr(69), msg: Command::SyncFlags(StatusFlags::pump()) });
    assert_eq!(w.record(RadioPoll::Received(frame)), Some(Command::SyncFlags(StatusFlags::pump())));
    let mut polls = 1;
    while w.is_open() {
        assert_eq!(w.record(RadioPoll::Idle), None);
        polls += 1;
    }
    assert_eq!(polls, 50);
}

#[test]
fn listen_window_closes_on_failure() {
    let mut w = ListenWindow::new();
    assert_eq!(w.record(RadioPoll::Failed), None);
    assert!(!w.is_open());
}

#[test]
fn reader_corrects_offset_and_keeps_reference() {
    let mut b = Bme688::new();
    let m = Measurement { temperature: 31_500, pressure: None, humidity: 40_000, gas_resistance: 7 };
    let r = b.read(m).unwrap();
    assert_eq!(r, BME688SensorReport { temp: 21_500, pressure: 0, humidity: 40_000, gas_resistance: 7 });
    assert_eq!(b.last, Some(r));
}

#[test]
fn reader_clears_reference_on_rejection() {
    let mut b = Bme688::new();
    let m = Measurement { temperature: 30_000, pressure: Some(100_000_000), humidity: 40_000, gas_resistance: 7 };
    assert!(b.read(m).is_some());
    let jump = Measurement { temperature: 30_000, pressure: Some(100_000_000), humidity: 95_000, gas_resistance: 7 };
    assert_eq!(b.read(jump), None);
    assert_eq!(b.last, None);
    assert!(b.read(jump).is_some());
}

#[test]
fn reader_rejects_heat_after_offset() {
    let mut b = Bme688::new();
    let m = Measurement { temperature: 90_001, pressure: Some(0), humidity: 0, gas_resistance: 0 };
    assert_eq!(b.read(m), None);
    let m = Measurement { temperature: 90_000, pressure: Some(0), humidity: 0, gas_resistance: 0 };
    assert_eq!(b.read(m).unwrap().temp, 80_000);
    let m = Measurement { temperature: i32::MIN, pressure: Some(0), humidity: 0, gas_resistance: 0 };
    let mut fresh = Bme688::new();
    assert_eq!(fresh.read(m).unwrap().temp, i32::MIN);
}

#[test]
fn ticker_emits_report_only_when_cycle_completes() {
    let mut m = Moisture::<2>::new();
    let (step, report) = moisture_ticker(&mut m, 0);
    assert_eq!(step, Step { action: StepAction::Begin, delay_secs: 1 });
    assert!(report.is_none());
    m.tick_count();
    let (step, report) = moisture_ticker(&mut m, 1_000);
    assert_eq!(step.action, StepAction::Select(1));
    assert!(report.is_none());
    let (step, report) = moisture_ticker(&mut m, 3_000);
    assert_eq!(step, Step { action: StepAction::Finish, delay_secs: 60 });
    match report {
        Some(Message::MoistureReport(r)) => assert_eq!(
            r.moisture.to_vec(),
            vec![MoistureReading { clocks: 1, duration_ms: 1_000 }, MoistureReading { clocks: 0, duration_ms: 2_000 }]
        ),
        other => panic!("expected a moisture report: {:?}", other),
    }
    let (step, report) = moisture_ticker(&mut m, 63_000);
    assert_eq!(step.action, StepAction::Begin);
    assert!(report.is_none());
}

#[test]
fn eight_channel_cycle() {
    let mut m = Moisture::<8>::new();
    assert_eq!(m.step_state(0).action, StepAction::Begin);
    for c in 1..8u8 {
        assert_eq!(m.step_state(c as u32 * 10).action, StepAction::Select(c));
    }
    assert_eq!(m.step_state(80).action, StepAction::Finish);
    assert!(m.is_reading_ready());
    assert_eq!(m.format_message().moisture.len(), 8);
}

#[test]
fn transmit_cycle_runs_in_order() {
    let (mut c, frame) = TransmitCycle::start(Message::StatusUpdate(DeviceStatus { flags: StatusFlags::pump() }));
    assert_eq!(frame, vec![0x69, 0, 2, 1]);
    assert_eq!(c.phase, CyclePhase::Transmitting);
    assert_eq!(c.step(CycleEvent::TransmitPending), (CycleAction::CheckTransmitAfter(10), None));
    assert_eq!(c.step(CycleEvent::ResetDone), (CycleAction::Ignore, None));
    assert_eq!(c.step(CycleEvent::TransmitFinished), (CycleAction::StartReceive, None));
    assert_eq!(c.phase, CyclePhase::Listening(LISTEN_SLOTS));
    let reply = encode_command(&Transmission { src: DevAddr(69), msg: Command::Reset });
    assert_eq!(c.step(CycleEvent::Polled(RadioPoll::Received(reply))), (CycleAction::PollAfter(10), Some(Command::Reset)));
    for _ in 0..48 {
        assert_eq!(c.step(CycleEvent::Polled(RadioPoll::Idle)), (CycleAction::PollAfter(10), None));
    }
    assert_eq!(c.step(CycleEvent::Polled(RadioPoll::Idle)), (CycleAction::ResetRadio, None));
    assert_eq!(c.phase, CyclePhase::Resetting);
    assert_eq!(c.step(CycleEvent::ResetDone), (CycleAction::Rest(50), None));
    assert_eq!(c.step(CycleEvent::RestDone), (CycleAction::Finish, None));
    assert_eq!(c.phase, CyclePhase::Done);
}

#[test]
fn transmit_cycle_failure_ends_window() {
    let (mut c, _) = TransmitCycle::start(Message::StatusUpdate(DeviceStatus { flags: StatusFlags::empty() }));
    c.step(CycleEvent::TransmitFinished);
    assert_eq!(c.step(CycleEvent::Polled(RadioPoll::Failed)), (CycleAction::ResetRadio, None));
    assert_eq!(c.phase, CyclePhase::Resetting);
}
