use vstd::prelude::*;
use crate::codec::{decode_message, encode_command, command_frame, parse_message_frame, MAX_FRAME_LEN};
use crate::environment::{env_verdict, BME688SensorReport, BME688SensorValidationError};
use crate::field::{command_effect, Reaction};
use crate::flags::{DeviceStatus, StatusFlags};
use crate::protocol::{
    Command, DevAddr, Message, MessageView, PanelMessage, Transmission, UiCommand,
    BASE_STATION_ADDR, FIELD_UNIT_ADDR,
};
use crate::readings::{moisture_verdict, MoistureReading, MoistureSensorReport, MoistureSensorValidationError};

verus! {

/// The operators' wishes, held by the base station: the flag set the field
/// unit should have, and whether a reboot was asked for and not yet sent.
#[derive(Debug, Clone, Copy, PartialEq, Eq, Structural)]
pub struct DesiredState {
    pub desired: StatusFlags,
    pub reset_wanted: bool,
}

/// The store after an operator command, and the echo sent back: each command
/// sets or clears one flag, or asks for a reboot.
pub open spec fn ui_effect(s: DesiredState, cmd: UiCommand) -> (DesiredState, PanelMessage) {
    let next = match cmd {
        UiCommand::PumpOn => DesiredState { desired: StatusFlags { pump_on: true, ..s.desired }, ..s },
        UiCommand::PumpOff => DesiredState { desired: StatusFlags { pump_on: false, ..s.desired }, ..s },
        UiCommand::ValveOpen => DesiredState {
            desired: StatusFlags { valve_open: true, ..s.desired },
            ..s
        },
        UiCommand::ValveClose => DesiredState {
            desired: StatusFlags { valve_open: false, ..s.desired },
            ..s
        },
        UiCommand::Reset => DesiredState { reset_wanted: true, ..s },
    };
    (next, PanelMessage::DesiredStatus(next.desired))
}

/// The store after a message from the field unit, and the commands to send
/// back, in order: a reboot if one is wanted (which is then no longer
/// wanted), then, if the message is a status that differs from the desired
/// flags, those flags.
pub open spec fn reply_effect(s: DesiredState, msg: MessageView) -> (DesiredState, Seq<Command>) {
    let resets = if s.reset_wanted { seq![Command::Reset] } else { Seq::empty() };
    let syncs = match msg {
        MessageView::StatusUpdate(upd) => if upd.flags != s.desired {
            seq![Command::SyncFlags(s.desired)]
        } else {
            Seq::empty()
        },
        _ => Seq::empty(),
    };
    (DesiredState { reset_wanted: false, ..s }, resets + syncs)
}

impl DesiredState {
    /// No flag desired and no reboot wanted.
    pub fn new() -> (r: DesiredState)
        ensures
            r.desired == StatusFlags::empty_spec(),
            !r.reset_wanted,
    {
        DesiredState { desired: StatusFlags::empty(), reset_wanted: false }
    }

    /// Applies an operator command and returns the echo of the desired flags.
    pub fn apply_ui_command(&mut self, cmd: UiCommand) -> (r: PanelMessage)
        ensures
            (*final(self), r) == ui_effect(*old(self), cmd),
    {
        match cmd {
            UiCommand::PumpOn => self.desired.set(StatusFlags::pump(), true),
            UiCommand::PumpOff => self.desired.set(StatusFlags::pump(), false),
            UiCommand::ValveOpen => self.desired.set(StatusFlags::valve(), true),
            UiCommand::ValveClose => self.desired.set(StatusFlags::valve(), false),
            UiCommand::Reset => self.reset_wanted = true,
        }
        PanelMessage::DesiredStatus(self.desired)
    }

    /// What a newly connected operator is sent: a greeting, the last known
    /// status if there is one, then the desired flags.
    pub fn greeting(&self, last: Option<DeviceStatus>) -> (r: Vec<PanelMessage>)
        ensures
            r@ == (match last {
                Some(st) => seq![PanelMessage::Hello, PanelMessage::Status(st), PanelMessage::DesiredStatus(self.desired)],
                None => seq![PanelMessage::Hello, PanelMessage::DesiredStatus(self.desired)],
            }),
    {
        let mut out: Vec<PanelMessage> = Vec::new();
        out.push(PanelMessage::Hello);
        if let Some(st) = last {
            out.push(PanelMessage::Status(st));
        }
        out.push(PanelMessage::DesiredStatus(self.desired));
        proof {
            assert(out@ =~= (match last {
                Some(st) => seq![PanelMessage::Hello, PanelMessage::Status(st), PanelMessage::DesiredStatus(self.desired)],
                None => seq![PanelMessage::Hello, PanelMessage::DesiredStatus(self.desired)],
            }));
        }
        out
    }

    /// The commands to send back after `msg`, as `reply_effect` says; a wanted
    /// reboot is sent once.
    pub fn plan_replies(&mut self, msg: &Message) -> (r: Vec<Command>)
        ensures
            (*final(self), r@) == reply_effect(*old(self), msg@),
    {
        let mut out: Vec<Command> = Vec::new();
        if self.reset_wanted {
            out.push(Command::Reset);
            self.reset_wanted = false;
        }
        if let Message::StatusUpdate(upd) = msg {
            if upd.flags != self.desired {
                out.push(Command::SyncFlags(self.desired));
            }
        }
        proof {
            assert(out@ =~= reply_effect(*old(self), msg@).1);
        }
        out
    }
}

/// What became of a received frame.
#[derive(Debug)]
pub enum Inbound {
    /// It holds no message.
    Malformed,
    /// It comes from another sender.
    Foreign(DevAddr),
    /// It comes from the field unit: the message, and the commands to send
    /// back.
    Accepted { msg: Message, replies: Vec<Command> },
}

/// Takes one received frame: a frame that holds no message, or that comes
/// from another sender than the field unit, is dropped with the store
/// unchanged; otherwise the replies are planned as `reply_effect` says.
pub fn receive_cycle(store: &mut DesiredState, frame: &[u8]) -> (r: Inbound)
    ensures
        match parse_message_frame(frame@) {
            None => r is Malformed && *final(store) == *old(store),
            Some((src, m)) => if src != DevAddr(FIELD_UNIT_ADDR) {
                r == Inbound::Foreign(src) && *final(store) == *old(store)
            } else {
                r matches Inbound::Accepted { msg, replies } && msg@ == m && (*final(store), replies@)
                    == reply_effect(*old(store), m)
            },
        },
{
    match decode_message(frame) {
        None => Inbound::Malformed,
        Some(t) => {
            if t.src != DevAddr(FIELD_UNIT_ADDR) {
                Inbound::Foreign(t.src)
            } else {
                let replies = store.plan_replies(&t.msg);
                Inbound::Accepted { msg: t.msg, replies }
            }
        },
    }
}

/// The frame in which the base station sends `cmd`.
pub fn frame_command(cmd: Command) -> (r: Vec<u8>)
    ensures
        r@ == command_frame(Transmission { src: DevAddr(BASE_STATION_ADDR), msg: cmd }),
        r@.len() <= MAX_FRAME_LEN,
{
    encode_command(&Transmission { src: DevAddr(BASE_STATION_ADDR), msg: cmd })
}

/// Why the base station dropped a reading.
#[derive(Debug, Clone, Copy, PartialEq, Eq, Structural)]
pub enum SubmitError {
    Moisture(MoistureSensorValidationError),
    Environment(BME688SensorValidationError),
}

/// The base station's validation history: the last accepted report of each
/// kind, the reference for the next check. It is kept apart from the field
/// unit's own.
#[derive(Debug)]
pub struct Validator {
    pub last_bme_reading: Option<BME688SensorReport>,
    pub last_moisture_reading: Option<MoistureSensorReport>,
}

/// The channels of an optional report.
pub open spec fn opt_view(o: Option<MoistureSensorReport>) -> Option<Seq<MoistureReading>> {
    match o {
        Some(r) => Some(r@),
        None => None,
    }
}

impl Validator {
    /// No history.
    pub fn new() -> (r: Validator)
        ensures
            r.last_bme_reading is None,
            r.last_moisture_reading is None,
    {
        Validator { last_bme_reading: None, last_moisture_reading: None }
    }

    /// Checks a message from the field unit against the history. A report
    /// that passes its `sanity_check` becomes the reference for its kind and
    /// the message is handed back; one that fails clears the reference for its
    /// kind, so that the next report of that kind is checked against nothing.
    /// A status passes as it is. The other kind's reference is kept.
    pub fn submit(&mut self, msg: Message) -> (r: Result<Message, SubmitError>)
        ensures
            match msg@ {
                MessageView::MoistureReport(s) => {
                    &&& final(self).last_bme_reading == old(self).last_bme_reading
                    &&& match moisture_verdict(s, opt_view(old(self).last_moisture_reading)) {
                        None => r == Ok::<Message, SubmitError>(msg) && opt_view(
                            final(self).last_moisture_reading,
                        ) == Some(s),
                        Some(e) => r == Err::<Message, SubmitError>(SubmitError::Moisture(e))
                            && final(self).last_moisture_reading is None,
                    }
                },
                MessageView::BME688Report(rep) => {
                    &&& opt_view(final(self).last_moisture_reading) == opt_view(
                        old(self).last_moisture_reading,
                    )
                    &&& match env_verdict(rep, old(self).last_bme_reading) {
                        None => r == Ok::<Message, SubmitError>(msg) && final(self).last_bme_reading
                            == Some(rep),
                        Some(e) => r == Err::<Message, SubmitError>(SubmitError::Environment(e))
                            && final(self).last_bme_reading is None,
                    }
                },
                MessageView::StatusUpdate(_) => {
                    &&& r == Ok::<Message, SubmitError>(msg)
                    &&& final(self).last_bme_reading == old(self).last_bme_reading
                    &&& opt_view(final(self).last_moisture_reading) == opt_view(
                        old(self).last_moisture_reading,
                    )
                },
            },
    {
        match msg {
            Message::MoistureReport(report) => {
                match report.sanity_check(self.last_moisture_reading.as_ref()) {
                    Ok(accepted) => {
                        self.last_moisture_reading = Some(accepted.duplicate());
                        Ok(Message::MoistureReport(accepted))
                    },
                    Err(e) => {
                        self.last_moisture_reading = None;
                        Err(SubmitError::Moisture(e))
                    },
                }
            },
            Message::BME688Report(report) => {
                match report.sanity_check(self.last_bme_reading.as_ref()) {
                    Ok(accepted) => {
                        self.last_bme_reading = Some(accepted);
                        Ok(Message::BME688Report(accepted))
                    },
                    Err(e) => {
                        self.last_bme_reading = None;
                        Err(SubmitError::Environment(e))
                    },
                }
            },
            Message::StatusUpdate(upd) => Ok(Message::StatusUpdate(upd)),
        }
    }
}

/// Reconciliation settles in one round. When the field unit reports flags
/// other than the desired ones (and no reboot is pending), the base station
/// sends exactly the desired flags; the unit takes them, drives its lines to
/// them and reports them back; and that report draws no further command.
pub proof fn lemma_reconciliation_converges(s: DesiredState, unit: DeviceStatus)
    requires
        !s.reset_wanted,
        unit.flags != s.desired,
    ensures
        ({
            let (s1, replies) = reply_effect(s, MessageView::StatusUpdate(unit));
            let (unit2, reaction) = command_effect(unit, Command::SyncFlags(s.desired));
            &&& replies == seq![Command::SyncFlags(s.desired)]
            &&& s1 == s
            &&& unit2.flags == s.desired
            &&& reaction == Reaction::Apply {
                pump_on: s.desired.pump_on,
                valve_open: s.desired.valve_open,
                update: unit2,
            }
            &&& reply_effect(s1, MessageView::StatusUpdate(unit2)).1 == Seq::<Command>::empty()
        }),
{
    let (s1, replies) = reply_effect(s, MessageView::StatusUpdate(unit));
    assert(replies =~= seq![Command::SyncFlags(s.desired)]);
    let (unit2, reaction) = command_effect(unit, Command::SyncFlags(s.desired));
    assert(reply_effect(s1, MessageView::StatusUpdate(unit2)).1 =~= Seq::<Command>::empty());
}

/// A reboot asked for by an operator is sent once: the command sets the
/// reset flag; the next receive cycle sends `Reset` first and clears the
/// flag; the cycle after sends no `Reset`.
pub proof fn lemma_reset_sent_once(s: DesiredState, m1: MessageView, m2: MessageView)
    ensures
        ({
            let (s1, echo) = ui_effect(s, UiCommand::Reset);
            let (s2, r1) = reply_effect(s1, m1);
            let (s3, r2) = reply_effect(s2, m2);
            &&& s1.reset_wanted
            &&& echo == PanelMessage::DesiredStatus(s.desired)
            &&& r1.len() >= 1 && r1[0] == Command::Reset
            &&& !s2.reset_wanted
            &&& !r2.contains(Command::Reset)
            &&& !s3.reset_wanted
        }),
{
    let (s1, echo) = ui_effect(s, UiCommand::Reset);
    let (s2, r1) = reply_effect(s1, m1);
    let (s3, r2) = reply_effect(s2, m2);
    if r2.contains(Command::Reset) {
        let i = choose|i: int| 0 <= i < r2.len() && r2[i] == Command::Reset;
        assert(r2[i] is SyncFlags);
    }
}

/// Once cleared, the reset flag stays clear through any receive cycle, and
/// through any operator command but `Reset`.
pub proof fn lemma_reset_flag_stays_clear(s: DesiredState, m: MessageView, cmd: UiCommand)
    ensures
        !reply_effect(s, m).0.reset_wanted,
        cmd != UiCommand::Reset ==> ui_effect(s, cmd).0.reset_wanted == s.reset_wanted,
{
}

} // verus!
