use garden::flags::{DeviceStatus, StatusFlags};
use garden::panel::{LogEntry, LogEvent, PanelView};
use garden::protocol::PanelMessage;

#[test]
fn first_status_logs_both_actuators() {
    let mut v = PanelView::new();
    let events = v.observe(PanelMessage::Status(DeviceStatus { flags: StatusFlags::pump() }));
    assert_eq!(events, vec![LogEvent::PumpTurnedOn, LogEvent::ValveClosed]);
    assert_eq!(v, PanelView { pump: Some(true), valve: Some(false) });
}

#[test]
fn unchanged_status_logs_nothing() {
    let mut v = PanelView { pump: Some(true), valve: Some(true) };
    assert!(v.observe(PanelMessage::Status(DeviceStatus { flags: StatusFlags::all() })).is_empty());
    assert_eq!(v.observe(PanelMessage::Status(DeviceStatus { flags: StatusFlags::pump() })), vec![LogEvent::ValveClosed]);
    assert_eq!(v.observe(PanelMessage::Status(DeviceStatus { flags: StatusFlags::empty() })), vec![LogEvent::PumpTurnedOff]);
}

#[test]
fn other_messages_log_nothing() {
    let mut v = PanelView::new();
    assert!(v.observe(PanelMessage::Hello).is_empty());
    assert!(v.observe(PanelMessage::DesiredStatus(StatusFlags::all())).is_empty());
    assert_eq!(v, PanelView::new());
}

#[test]
fn log_texts() {
    assert_eq!(LogEvent::PumpTurnedOn.text(), "Pump turned ON");
    assert_eq!(LogEvent::PumpTurnedOff.text(), "Pump turned OFF");
    assert_eq!(LogEvent::ValveOpened.text(), "Valve OPENED");
    assert_eq!(LogEvent::ValveClosed.text(), "Valve CLOSED");
}

#[test]
fn log_entry_keeps_text_and_time() {
    let e = LogEntry::new(LogEvent::ValveOpened.text(), 1_700_000_000_123);
    assert_eq!(e.msg, "Valve OPENED");
    assert_eq!(e.when_millis, 1_700_000_000_123);
}
