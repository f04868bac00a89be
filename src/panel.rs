use vstd::prelude::*;
use crate::protocol::PanelMessage;

verus! {

/// A line of an operator's command log: when it was written, in milliseconds
/// since the Unix epoch, and what it says.
#[derive(Debug, Clone)]
pub struct LogEntry {
    pub when_millis: i64,
    pub msg: String,
}

impl LogEntry {
    /// A log line saying `msg`, stamped `when_millis` (read from the clock by
    /// the caller).
    pub fn new(msg: &str, when_millis: i64) -> (r: LogEntry)
        ensures
            r.msg@ == msg@,
            r.when_millis == when_millis,
    {
        LogEntry { when_millis, msg: msg.to_owned() }
    }
}

/// A change of an actuator that the operator's log reports.
#[derive(Debug, Clone, Copy, PartialEq, Eq, Structural)]
pub enum LogEvent {
    PumpTurnedOn,
    PumpTurnedOff,
    ValveOpened,
    ValveClosed,
}

pub open spec fn event_text(e: LogEvent) -> Seq<char> {
    match e {
        LogEvent::PumpTurnedOn => "Pump turned ON"@,
        LogEvent::PumpTurnedOff => "Pump turned OFF"@,
        LogEvent::ValveOpened => "Valve OPENED"@,
        LogEvent::ValveClosed => "Valve CLOSED"@,
    }
}

impl LogEvent {
    /// The log line of this change.
    pub fn text(&self) -> (r: &'static str)
        ensures
            r@ == event_text(*self),
    {
        match self {
            LogEvent::PumpTurnedOn => "Pump turned ON",
            LogEvent::PumpTurnedOff => "Pump turned OFF",
            LogEvent::ValveOpened => "Valve OPENED",
            LogEvent::ValveClosed => "Valve CLOSED",
        }
    }
}

/// What an operator's panel knows of the actuators: nothing until the first
/// status arrives.
#[derive(Debug, Clone, Copy, PartialEq, Eq, Structural)]
pub struct PanelView {
    pub pump: Option<bool>,
    pub valve: Option<bool>,
}

/// The view after `msg`, and the changes to log, pump first. Only a status
/// changes the view; a flag whose state is unchanged logs nothing.
pub open spec fn observe_effect(v: PanelView, msg: PanelMessage) -> (PanelView, Seq<LogEvent>) {
    match msg {
        PanelMessage::Status(st) => {
            let pump = st.flags.pump_on;
            let valve = st.flags.valve_open;
            let pump_events = if v.pump != Some(pump) {
                seq![if pump { LogEvent::PumpTurnedOn } else { LogEvent::PumpTurnedOff }]
            } else {
                Seq::empty()
            };
            let valve_events = if v.valve != Some(valve) {
                seq![if valve { LogEvent::ValveOpened } else { LogEvent::ValveClosed }]
            } else {
                Seq::empty()
            };
            (PanelView { pump: Some(pump), valve: Some(valve) }, pump_events + valve_events)
        },
        _ => (v, Seq::empty()),
    }
}

impl PanelView {
    /// Nothing known yet.
    pub fn new() -> (r: PanelView)
        ensures
            r.pump is None,
            r.valve is None,
    {
        PanelView { pump: None, valve: None }
    }

    /// Takes a message from the base station and returns the changes to log,
    /// as `observe_effect` says.
    pub fn observe(&mut self, msg: PanelMessage) -> (r: Vec<LogEvent>)
        ensures
            (*final(self), r@) == observe_effect(*old(self), msg),
    {
        let mut out: Vec<LogEvent> = Vec::new();
        if let PanelMessage::Status(st) = msg {
            let pump = st.flags.pump_on;
            if self.pump != Some(pump) {
                self.pump = Some(pump);
                out.push(if pump { LogEvent::PumpTurnedOn } else { LogEvent::PumpTurnedOff });
            }
            let valve = st.flags.valve_open;
            if self.valve != Some(valve) {
                self.valve = Some(valve);
                out.push(if valve { LogEvent::ValveOpened } else { LogEvent::ValveClosed });
            }
        }
        proof {
            assert(out@ =~= observe_effect(*old(self), msg).1);
        }
        out
    }
}

} // verus!
