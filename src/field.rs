use vstd::prelude::*;
use crate::codec::{decode_command, encode_message, message_frame, message_view_wf, parse_command_frame, MAX_FRAME_LEN};
use crate::environment::{env_verdict, BME688SensorReport};
use crate::flags::{DeviceStatus, StatusFlags};
use crate::moisture::{model_ready, report_of, step_model, LessThan, LessThanCarrier, Moisture, Step};
use crate::protocol::{Command, DevAddr, Message, Transmission, BASE_STATION_ADDR, FIELD_UNIT_ADDR};

verus! {

/// What the field unit does on a command from the base station.
#[derive(Debug, Clone, Copy, PartialEq, Eq, Structural)]
pub enum Reaction {
    /// Drive the pump and valve lines to these levels, then broadcast this
    /// status.
    Apply { pump_on: bool, valve_open: bool, update: DeviceStatus },
    /// Reboot the device.
    Reboot,
}

/// The field unit's new status and reaction on `cmd`.
pub open spec fn command_effect(status: DeviceStatus, cmd: Command) -> (DeviceStatus, Reaction) {
    match cmd {
        Command::SyncFlags(f) => (
            DeviceStatus { flags: f },
            Reaction::Apply { pump_on: f.pump_on, valve_open: f.valve_open, update: DeviceStatus { flags: f } },
        ),
        Command::Reset => (status, Reaction::Reboot),
    }
}

/// Applies a command to the field unit's status: `SyncFlags` takes the flag
/// set as it is, each flag driving its line, and asks for the new status to be
/// broadcast; `Reset` leaves the status and asks for a reboot.
pub fn handle_command(status: &mut DeviceStatus, cmd: Command) -> (r: Reaction)
    ensures
        (*final(status), r) == command_effect(*old(status), cmd),
{
    match cmd {
        Command::SyncFlags(flags) => {
            let pump_on = flags.contains(StatusFlags::pump());
            let valve_open = flags.contains(StatusFlags::valve());
            status.flags = flags;
            Reaction::Apply { pump_on, valve_open, update: DeviceStatus { flags } }
        },
        Command::Reset => Reaction::Reboot,
    }
}

/// Syncing to the flags the unit already has changes nothing and still
/// broadcasts the status, once.
pub proof fn lemma_sync_idempotent(status: DeviceStatus, f: StatusFlags)
    requires
        status.flags == f,
    ensures
        command_effect(status, Command::SyncFlags(f)).0 == status,
        command_effect(status, Command::SyncFlags(f)).1 == (Reaction::Apply {
            pump_on: f.pump_on,
            valve_open: f.valve_open,
            update: status,
        }),
        command_effect(command_effect(status, Command::SyncFlags(f)).0, Command::SyncFlags(f))
            == command_effect(status, Command::SyncFlags(f)),
{
}

/// The frame in which the field unit sends `msg`.
pub fn frame_message(msg: Message) -> (r: Vec<u8>)
    ensures
        r@ == message_frame(DevAddr(FIELD_UNIT_ADDR), msg@),
        message_view_wf(msg@),
        r@.len() <= MAX_FRAME_LEN,
{
    let t = Transmission { src: DevAddr(FIELD_UNIT_ADDR), msg };
    encode_message(&t)
}

/// The command in a received frame, if the frame holds one and comes from
/// the base station.
pub open spec fn accepted_command(b: Seq<u8>) -> Option<Command> {
    match parse_command_frame(b) {
        Some(t) => if t.src == DevAddr(BASE_STATION_ADDR) {
            Some(t.msg)
        } else {
            None
        },
        None => None,
    }
}

/// The command in a received frame; `None` when the frame holds none or
/// comes from another sender.
pub fn accept_command(frame: &[u8]) -> (r: Option<Command>)
    ensures
        r == accepted_command(frame@),
{
    match decode_command(frame) {
        Some(t) => if t.src == DevAddr(BASE_STATION_ADDR) {
            Some(t.msg)
        } else {
            None
        },
        None => None,
    }
}

/// The number of response slots after a transmission.
pub const LISTEN_SLOTS: u32 = 50;

/// What one poll of the radio found.
#[derive(Debug)]
pub enum RadioPoll {
    /// Nothing has arrived.
    Idle,
    /// A frame has arrived.
    Received(Vec<u8>),
    /// The radio failed.
    Failed,
}

/// The response window that follows a transmission: a bounded number of
/// polls, closed early by a radio failure.
#[derive(Debug, Clone, Copy, PartialEq, Eq, Structural)]
pub struct ListenWindow {
    pub remaining: u32,
}

impl ListenWindow {
    /// A window of `LISTEN_SLOTS` polls.
    pub fn new() -> (r: ListenWindow)
        ensures
            r.remaining == LISTEN_SLOTS,
    {
        ListenWindow { remaining: LISTEN_SLOTS }
    }

    /// True while polls are left.
    pub fn is_open(&self) -> (r: bool)
        ensures
            r == (self.remaining > 0),
    {
        self.remaining > 0
    }

    /// Takes the outcome of one poll: a failure closes the window; otherwise
    /// one slot is used, and a frame gives the command it holds, if it holds
    /// one from the base station.
    pub fn record(&mut self, poll: RadioPoll) -> (r: Option<Command>)
        requires
            old(self).remaining > 0,
        ensures
            match poll {
                RadioPoll::Failed => final(self).remaining == 0 && r is None,
                RadioPoll::Idle => final(self).remaining == old(self).remaining - 1 && r is None,
                RadioPoll::Received(b) => final(self).remaining == old(self).remaining - 1 && r
                    == accepted_command(b@),
            },
    {
        match poll {
            RadioPoll::Failed => {
                self.remaining = 0;
                None
            },
            RadioPoll::Idle => {
                self.remaining = self.remaining - 1;
                None
            },
            RadioPoll::Received(b) => {
                self.remaining = self.remaining - 1;
                accept_command(b.as_slice())
            },
        }
    }
}

/// One run of the moisture ticker at time `now`: the machine takes a step,
/// and if a complete reading set is then ready its report is to be broadcast.
/// The ticker runs again after the step's delay.
pub fn moisture_ticker<const PINS: usize>(m: &mut Moisture<PINS>, now: u32) -> (r: (Step, Option<Message>))
    where
        LessThanCarrier<PINS>: LessThan<9>,
    requires
        old(m).wf(),
    ensures
        (final(m)@, r.0) == step_model(old(m)@, PINS as nat, now),
        final(m).wf(),
        match r.1 {
            Some(msg) => model_ready(final(m)@) && msg@ == crate::protocol::MessageView::MoistureReport(
                report_of(final(m)@.readings),
            ),
            None => !model_ready(final(m)@),
        },
{
    let step = m.step_state(now);
    let report = if m.is_reading_ready() {
        Some(Message::MoistureReport(m.format_message()))
    } else {
        None
    };
    (step, report)
}

/// Delay between checks that a transmission is complete, and between polls
/// of the listen window, in milliseconds.
pub const RADIO_POLL_DELAY_MS: u32 = 10;

/// The pause after a transmit cycle, before the radio may send again, in
/// milliseconds.
pub const INTER_TRANSMISSION_GAP_MS: u32 = 50;

/// Where a transmit cycle stands.
#[derive(Debug, Clone, Copy, PartialEq, Eq, Structural)]
pub enum CyclePhase {
    /// The frame is going out.
    Transmitting,
    /// Listening for replies, with this many polls left.
    Listening(u32),
    /// The radio is being reset and configured afresh.
    Resetting,
    /// Keeping the gap before the next transmission.
    Resting,
    /// The cycle is over.
    Done,
}

/// What happened on the radio side since the last step of the cycle.
#[derive(Debug)]
pub enum CycleEvent {
    /// The transmission is still going.
    TransmitPending,
    /// The transmission is over (or the radio can no longer tell).
    TransmitFinished,
    /// The outcome of a poll of the receiver.
    Polled(RadioPoll),
    /// The radio has been reset and configured.
    ResetDone,
    /// The gap has passed.
    RestDone,
}

/// What the radio side is to do next.
#[derive(Debug, Clone, Copy, PartialEq, Eq, Structural)]
pub enum CycleAction {
    /// Check again after this many milliseconds whether the transmission is over.
    CheckTransmitAfter(u32),
    /// Switch the radio to receive, then poll.
    StartReceive,
    /// Poll the receiver again after this many milliseconds.
    PollAfter(u32),
    /// Reset the radio and configure it afresh.
    ResetRadio,
    /// Wait this many milliseconds.
    Rest(u32),
    /// The cycle is over.
    Finish,
    /// The event does not belong to this phase: nothing to do.
    Ignore,
}

/// The next phase, the action, and the command received, if any, on `event`
/// in `phase`. The order is fixed: transmit until done, then listen for
/// `LISTEN_SLOTS` polls (a radio failure ends the window early), then reset
/// the radio, then keep the gap.
pub open spec fn cycle_effect(phase: CyclePhase, event: CycleEvent) -> (CyclePhase, CycleAction, Option<Command>) {
    match (phase, event) {
        (CyclePhase::Transmitting, CycleEvent::TransmitPending) => (
            CyclePhase::Transmitting,
            CycleAction::CheckTransmitAfter(RADIO_POLL_DELAY_MS),
            None,
        ),
        (CyclePhase::Transmitting, CycleEvent::TransmitFinished) => (
            CyclePhase::Listening(LISTEN_SLOTS),
            CycleAction::StartReceive,
            None,
        ),
        (CyclePhase::Listening(n), CycleEvent::Polled(poll)) => if n == 0 {
            (CyclePhase::Resetting, CycleAction::ResetRadio, None)
        } else {
            let (left, cmd) = match poll {
                RadioPoll::Failed => (0u32, None),
                RadioPoll::Idle => ((n - 1) as u32, None),
                RadioPoll::Received(b) => ((n - 1) as u32, accepted_command(b@)),
            };
            if left > 0 {
                (CyclePhase::Listening(left), CycleAction::PollAfter(RADIO_POLL_DELAY_MS), cmd)
            } else {
                (CyclePhase::Resetting, CycleAction::ResetRadio, cmd)
            }
        },
        (CyclePhase::Resetting, CycleEvent::ResetDone) => (
            CyclePhase::Resting,
            CycleAction::Rest(INTER_TRANSMISSION_GAP_MS),
            None,
        ),
        (CyclePhase::Resting, CycleEvent::RestDone) => (CyclePhase::Done, CycleAction::Finish, None),
        (p, _) => (p, CycleAction::Ignore, None),
    }
}

/// The field unit's transmit cycle: send one frame, listen for replies,
/// reset the radio, keep the gap.
#[derive(Debug, Clone, Copy, PartialEq, Eq, Structural)]
pub struct TransmitCycle {
    pub phase: CyclePhase,
}

impl TransmitCycle {
    /// Starts a cycle for `msg`: the frame to transmit, and the cycle in its
    /// first phase.
    pub fn start(msg: Message) -> (r: (TransmitCycle, Vec<u8>))
        ensures
            r.0.phase == CyclePhase::Transmitting,
            r.1@ == message_frame(DevAddr(FIELD_UNIT_ADDR), msg@),
            r.1@.len() <= MAX_FRAME_LEN,
    {
        (TransmitCycle { phase: CyclePhase::Transmitting }, frame_message(msg))
    }

    /// Takes an event and returns the action to take next and the command
    /// received, as `cycle_effect` says.
    pub fn step(&mut self, event: CycleEvent) -> (r: (CycleAction, Option<Command>))
        ensures
            (final(self).phase, r.0, r.1) == cycle_effect(old(self).phase, event),
    {
        match (self.phase, event) {
            (CyclePhase::Transmitting, CycleEvent::TransmitPending) => (
                CycleAction::CheckTransmitAfter(RADIO_POLL_DELAY_MS),
                None,
            ),
            (CyclePhase::Transmitting, CycleEvent::TransmitFinished) => {
                self.phase = CyclePhase::Listening(LISTEN_SLOTS);
                (CycleAction::StartReceive, None)
            },
            (CyclePhase::Listening(n), CycleEvent::Polled(poll)) => {
                if n == 0 {
                    self.phase = CyclePhase::Resetting;
                    return (CycleAction::ResetRadio, None);
                }
                let mut window = ListenWindow { remaining: n };
                let cmd = window.record(poll);
                if window.is_open() {
                    self.phase = CyclePhase::Listening(window.remaining);
                    (CycleAction::PollAfter(RADIO_POLL_DELAY_MS), cmd)
                } else {
                    self.phase = CyclePhase::Resetting;
                    (CycleAction::ResetRadio, cmd)
                }
            },
            (CyclePhase::Resetting, CycleEvent::ResetDone) => {
                self.phase = CyclePhase::Resting;
                (CycleAction::Rest(INTER_TRANSMISSION_GAP_MS), None)
            },
            (CyclePhase::Resting, CycleEvent::RestDone) => {
                self.phase = CyclePhase::Done;
                (CycleAction::Finish, None)
            },
            (_, _) => (CycleAction::Ignore, None),
        }
    }
}

/// The stage of a phase in the cycle's fixed order.
pub open spec fn phase_rank(p: CyclePhase) -> int {
    match p {
        CyclePhase::Transmitting => 0,
        CyclePhase::Listening(_) => 1,
        CyclePhase::Resetting => 2,
        CyclePhase::Resting => 3,
        CyclePhase::Done => 4,
    }
}

/// A cycle never goes back: every event leaves the phase where it was or
/// moves it on by one stage, and each poll shrinks the listen window. No
/// command is taken outside the listen window, and an event that does not
/// belong to the phase changes nothing.
pub proof fn lemma_cycle_order(phase: CyclePhase, event: CycleEvent)
    ensures
        phase_rank(cycle_effect(phase, event).0) == phase_rank(phase) || phase_rank(
            cycle_effect(phase, event).0,
        ) == phase_rank(phase) + 1,
        phase matches CyclePhase::Listening(n) ==> (cycle_effect(phase, event).0 matches CyclePhase::Listening(m) ==> m < n || cycle_effect(phase, event).1 == CycleAction::Ignore),
        cycle_effect(phase, event).2 is Some ==> phase is Listening,
        cycle_effect(phase, event).1 == CycleAction::Ignore ==> cycle_effect(phase, event).0 == phase,
{
    match (phase, event) {
        (CyclePhase::Listening(n), CycleEvent::Polled(poll)) => {
            if n > 0 {
                match poll {
                    RadioPoll::Received(b) => {},
                    _ => {},
                }
            }
        },
        _ => {},
    }
}

/// A raw measurement of the weather sensor, in the units of
/// `BME688SensorReport`; the pressure may be missing.
#[derive(Debug, Clone, Copy, PartialEq, Eq, Structural)]
pub struct Measurement {
    pub temperature: i32,
    pub pressure: Option<i32>,
    pub humidity: i32,
    pub gas_resistance: u32,
}

/// How much warmer the sensor reads than the air, in thousandths of a degree
/// Celsius (it sits by the board's own heat).
pub const TEMP_OFFSET: i32 = 10_000;

/// The report that a raw measurement makes: the temperature corrected by
/// `TEMP_OFFSET` (stopping at the lowest value), a missing pressure as zero.
pub open spec fn report_of_measurement(m: Measurement) -> BME688SensorReport {
    BME688SensorReport {
        temp: if m.temperature >= i32::MIN + TEMP_OFFSET {
            (m.temperature - TEMP_OFFSET) as i32
        } else {
            i32::MIN
        },
        pressure: match m.pressure {
            Some(p) => p,
            None => 0,
        },
        humidity: m.humidity,
        gas_resistance: m.gas_resistance,
    }
}

/// The field unit's weather reader: it keeps the last accepted report as the
/// reference for the next check.
#[derive(Debug, Clone, Copy, PartialEq, Eq, Structural)]
pub struct Bme688 {
    pub last: Option<BME688SensorReport>,
}

impl Bme688 {
    /// A reader with no reference report.
    pub fn new() -> (r: Bme688)
        ensures
            r.last is None,
    {
        Bme688 { last: None }
    }

    /// Turns a measurement into a report and checks it against the last
    /// accepted one. An accepted report becomes the reference and is
    /// returned; a rejected one clears the reference and gives `None`.
    pub fn read(&mut self, m: Measurement) -> (r: Option<BME688SensorReport>)
        ensures
            ({
                let report = report_of_measurement(m);
                match env_verdict(report, old(self).last) {
                    None => r == Some(report) && final(self).last == Some(report),
                    Some(_) => r is None && final(self).last is None,
                }
            }),
    {
        let report = BME688SensorReport {
            temp: if m.temperature >= i32::MIN + TEMP_OFFSET {
                m.temperature - TEMP_OFFSET
            } else {
                i32::MIN
            },
            pressure: match m.pressure {
                Some(p) => p,
                None => 0,
            },
            humidity: m.humidity,
            gas_resistance: m.gas_resistance,
        };
        match report.sanity_check(self.last.as_ref()) {
            Ok(accepted) => {
                self.last = Some(accepted);
                Some(accepted)
            },
            Err(_) => {
                self.last = None;
                None
            },
        }
    }
}

} // verus!
