use garden::base::{frame_command, receive_cycle, DesiredState, Inbound, SubmitError, Validator};
use garden::codec::{decode_command, encode_message};
use garden::environment::{BME688SensorReport, BME688SensorValidationError};
use garden::field::{accept_command, frame_message, handle_command, Reaction};
use garden::flags::{DeviceStatus, StatusFlags};
use garden::protocol::{Command, DevAddr, Message, PanelMessage, Transmission, UiCommand};
use garden::readings::{MoistureReading, MoistureSensorReport, MoistureSensorValidationError, Readings};

fn status_frame(flags: StatusFlags) -> Vec<u8> {
    frame_message(Message::StatusUpdate(DeviceStatus { flags }))
}

fn replies(r: Inbound) -> Vec<Command> {
    match r {
        Inbound::Accepted { replies, .. } => replies,
        other => panic!("not accepted: {:?}", other),
    }
}

#[test]
fn end_to_end_reconciliation() {
    let mut store = DesiredState::new();
    store.apply_ui_command(UiCommand::PumpOn);
    let mut unit = DeviceStatus { flags: StatusFlags::empty() };

    let sent = replies(receive_cycle(&mut store, &status_frame(unit.flags)));
    assert_eq!(sent, vec![Command::SyncFlags(StatusFlags::pump())]);

    let frame = frame_command(sent[0]);
    let cmd = accept_command(&frame).unwrap();
    let reaction = handle_command(&mut unit, cmd);
    assert_eq!(unit.flags, StatusFlags::pump());
    let update = match reaction {
        Reaction::Apply { pump_on, valve_open, update } => {
            assert!(pump_on);
            assert!(!valve_open);
            update
        }
        Reaction::Reboot => panic!("unexpected reboot"),
    };

    let sent = replies(receive_cycle(&mut store, &frame_message(Message::StatusUpdate(update))));
    assert!(sent.is_empty());
}

#[test]
fn reset_flow_is_one_shot() {
    let mut store = DesiredState::new();
    assert_eq!(store.apply_ui_command(UiCommand::Reset), PanelMessage::DesiredStatus(StatusFlags::empty()));
    assert!(store.reset_wanted);
    let sent = replies(receive_cycle(&mut store, &status_frame(StatusFlags::empty())));
    assert_eq!(sent, vec![Command::Reset]);
    assert!(!store.reset_wanted);
    let sent = replies(receive_cycle(&mut store, &status_frame(StatusFlags::empty())));
    assert!(sent.is_empty());
    assert!(!store.reset_wanted);
}

#[test]
fn reset_goes_before_sync() {
    let mut store = DesiredState::new();
    store.apply_ui_command(UiCommand::ValveOpen);
    store.apply_ui_command(UiCommand::Reset);
    let sent = replies(receive_cycle(&mut store, &status_frame(StatusFlags::empty())));
    assert_eq!(sent, vec![Command::Reset, Command::SyncFlags(StatusFlags::valve())]);
}

#[test]
fn reports_other_than_status_draw_no_sync() {
    let mut store = DesiredState::new();
    store.apply_ui_command(UiCommand::PumpOn);
    let rep = BME688SensorReport { temp: 20_000, pressure: 0, humidity: 0, gas_resistance: 0 };
    let sent = replies(receive_cycle(&mut store, &frame_message(Message::BME688Report(rep))));
    assert!(sent.is_empty());
}

#[test]
fn foreign_and_malformed_frames_dropped() {
    let mut store = DesiredState::new();
    store.apply_ui_command(UiCommand::Reset);
    let t = Transmission { src: DevAddr(69), msg: Message::StatusUpdate(DeviceStatus { flags: StatusFlags::all() }) };
    match receive_cycle(&mut store, &encode_message(&t)) {
        Inbound::Foreign(src) => assert_eq!(src, DevAddr(69)),
        other => panic!("not foreign: {:?}", other),
    }
    assert!(matches!(receive_cycle(&mut store, &[0x69]), Inbound::Malformed));
    assert!(store.reset_wanted);
}

#[test]
fn ui_commands_echo_desired_flags() {
    let mut store = DesiredState::new();
    assert_eq!(store.apply_ui_command(UiCommand::PumpOn), PanelMessage::DesiredStatus(StatusFlags::pump()));
    assert_eq!(store.apply_ui_command(UiCommand::ValveOpen), PanelMessage::DesiredStatus(StatusFlags::all()));
    assert_eq!(store.apply_ui_command(UiCommand::PumpOff), PanelMessage::DesiredStatus(StatusFlags::valve()));
    assert_eq!(store.apply_ui_command(UiCommand::PumpOff), PanelMessage::DesiredStatus(StatusFlags::valve()));
    assert_eq!(store.apply_ui_command(UiCommand::ValveClose), PanelMessage::DesiredStatus(StatusFlags::empty()));
    assert!(!store.reset_wanted);
}

#[test]
fn greeting_order() {
    let mut store = DesiredState::new();
    store.apply_ui_command(UiCommand::ValveOpen);
    let st = DeviceStatus { flags: StatusFlags::pump() };
    assert_eq!(
        store.greeting(Some(st)),
        vec![PanelMessage::Hello, PanelMessage::Status(st), PanelMessage::DesiredStatus(StatusFlags::valve())]
    );
    assert_eq!(store.greeting(None), vec![PanelMessage::Hello, PanelMessage::DesiredStatus(StatusFlags::valve())]);
}

#[test]
fn base_commands_come_from_base_address() {
    let t = decode_command(&frame_command(Command::Reset)).unwrap();
    assert_eq!(t.src, DevAddr(69));
    assert_eq!(t.msg, Command::Reset);
}

fn moisture(readings: &[(u16, u32)]) -> Message {
    let mut moisture = Readings::new();
    for &(clocks, duration_ms) in readings {
        moisture.push(MoistureReading { clocks, duration_ms }).unwrap();
    }
    Message::MoistureReport(MoistureSensorReport { moisture })
}

#[test]
fn validator_keeps_and_resets_history() {
    let mut v = Validator::new();
    assert!(v.submit(moisture(&[(100, 1000)])).is_ok());
    assert!(v.last_moisture_reading.is_some());
    assert!(v.submit(moisture(&[(110, 1000)])).is_ok());
    let err = v.submit(moisture(&[(200, 1000)])).unwrap_err();
    assert_eq!(err, SubmitError::Moisture(MoistureSensorValidationError::LargeDelta { sensor: 0, diff: 90_000 }));
    assert!(v.last_moisture_reading.is_none());
    assert!(v.submit(moisture(&[(200, 1000)])).is_ok());
    let err = v.submit(moisture(&[(200, 1000), (1, 1)])).unwrap_err();
    assert_eq!(err, SubmitError::Moisture(MoistureSensorValidationError::DifferingLengths));
}

#[test]
fn validator_environment_history() {
    let mut v = Validator::new();
    let a = BME688SensorReport { temp: 20_000, pressure: 100_000_000, humidity: 50_000, gas_resistance: 1 };
    let hot = BME688SensorReport { temp: 85_000, ..a };
    assert!(v.submit(Message::BME688Report(a)).is_ok());
    assert_eq!(v.last_bme_reading, Some(a));
    assert_eq!(
        v.submit(Message::BME688Report(hot)).unwrap_err(),
        SubmitError::Environment(BME688SensorValidationError::UnreasonablyHot(85_000))
    );
    assert_eq!(v.last_bme_reading, None);
}

#[test]
fn validator_passes_status() {
    let mut v = Validator::new();
    let st = DeviceStatus { flags: StatusFlags::all() };
    match v.submit(Message::StatusUpdate(st)).unwrap() {
        Message::StatusUpdate(s) => assert_eq!(s, st),
        other => panic!("wrong variant: {:?}", other),
    }
}
