use vstd::prelude::*;
use crate::environment::BME688SensorReport;
use crate::flags::{DeviceStatus, StatusFlags};
use crate::readings::{MoistureReading, MoistureSensorReport};

verus! {

/// A network address on the radio link.
#[derive(Debug, Clone, Copy, PartialEq, Eq, Structural)]
pub struct DevAddr(pub u16);

/// The field unit's address.
pub const FIELD_UNIT_ADDR: u16 = 0x69;

/// The base station's address.
pub const BASE_STATION_ADDR: u16 = 69;

/// What the field unit sends to the base station.
#[derive(Debug)]
pub enum Message {
    MoistureReport(MoistureSensorReport),
    BME688Report(BME688SensorReport),
    StatusUpdate(DeviceStatus),
}

/// A `Message` with the moisture readings as a sequence.
pub enum MessageView {
    MoistureReport(Seq<MoistureReading>),
    BME688Report(BME688SensorReport),
    StatusUpdate(DeviceStatus),
}

impl View for Message {
    type V = MessageView;

    open spec fn view(&self) -> MessageView {
        match self {
            Message::MoistureReport(r) => MessageView::MoistureReport(r@),
            Message::BME688Report(r) => MessageView::BME688Report(*r),
            Message::StatusUpdate(s) => MessageView::StatusUpdate(*s),
        }
    }
}

/// What the base station sends to the field unit.
#[derive(Debug, Clone, Copy, PartialEq, Eq, Structural)]
pub enum Command {
    /// Set the actuators to exactly this flag set.
    SyncFlags(StatusFlags),
    /// Reboot.
    Reset,
}

/// What an operator asks of the base station.
#[derive(Debug, Clone, Copy, PartialEq, Eq, Structural)]
pub enum UiCommand {
    PumpOn,
    PumpOff,
    ValveOpen,
    ValveClose,
    Reset,
}

/// One radio frame: the sender's address and its payload.
#[derive(Debug)]
pub struct Transmission<T> {
    pub src: DevAddr,
    pub msg: T,
}

/// What the base station tells an operator.
#[derive(Debug, Clone, Copy, PartialEq, Eq, Structural)]
pub enum PanelMessage {
    Hello,
    Status(DeviceStatus),
    DesiredStatus(StatusFlags),
}

} // verus!
