use vstd::prelude::*;
use crate::readings::{MoistureReading, MoistureSensorReport, Readings, readings_of};

verus! {

/// A type that carries a number, so that a bound on it can be stated as a
/// trait bound: `LessThanCarrier<N>: LessThan<M>` says that `N < M`.
pub struct LessThanCarrier<const LHS: usize>;

/// Implemented by `LessThanCarrier<N>` for the numbers `N` below `RHS`; here
/// for the channel counts a moisture report can hold, 0 to 8.
pub trait LessThan<const RHS: usize> {}

impl LessThan<9> for LessThanCarrier<0> {}

impl LessThan<9> for LessThanCarrier<1> {}

impl LessThan<9> for LessThanCarrier<2> {}

impl LessThan<9> for LessThanCarrier<3> {}

impl LessThan<9> for LessThanCarrier<4> {}

impl LessThan<9> for LessThanCarrier<5> {}

impl LessThan<9> for LessThanCarrier<6> {}

impl LessThan<9> for LessThanCarrier<7> {}

impl LessThan<9> for LessThanCarrier<8> {}

/// The rest after a whole sensing cycle, in seconds.
pub const BETWEEN_MEASUREMENTS_DELAY_SECS: u32 = 60;

/// The settle time of one channel, in seconds.
pub const BETWEEN_READINGS_DELAY_SECS: u32 = 1;

/// Where the sensing cycle stands.
#[derive(Debug, Clone, Copy, PartialEq, Eq, Structural)]
pub enum State {
    /// Idle: the edge interrupt is off.
    Off,
    /// Counting the edges of a channel, selected at a time in milliseconds.
    Measuring(u8, u32),
}

/// What the hardware is to do after a step.
#[derive(Debug, Clone, Copy, PartialEq, Eq, Structural)]
pub enum StepAction {
    /// Select channel 0 and turn the edge interrupt on.
    Begin,
    /// Select this channel.
    Select(u8),
    /// Turn the edge interrupt off: the readings are complete.
    Finish,
}

/// The outcome of a step: what to do, and when to step next.
#[derive(Debug, Clone, Copy, PartialEq, Eq, Structural)]
pub struct Step {
    pub action: StepAction,
    pub delay_secs: u32,
}

/// The state of a `Moisture`: the reading of each channel (edges, duration in
/// milliseconds), the stage of the cycle, and the live edge count.
pub struct MoistureModel {
    pub readings: Seq<Option<(u16, u32)>>,
    pub state: State,
    pub count: u16,
}

/// A consistent state for `pins` channels: during a cycle the channels before
/// the selected one have readings and the others none; when idle, either all
/// have readings or none does.
pub open spec fn model_wf(m: MoistureModel, pins: nat) -> bool {
    &&& 0 < pins <= 8
    &&& m.readings.len() == pins
    &&& match m.state {
        State::Off => (forall|i: int| 0 <= i < pins ==> #[trigger] m.readings[i] is Some) || (forall|
            i: int,
        |
            0 <= i < pins ==> #[trigger] m.readings[i] is None),
        State::Measuring(n, _) => n < pins && (forall|i: int|
            0 <= i < pins ==> (#[trigger] m.readings[i] is Some <==> i < n)),
    }
}

/// A complete reading set is ready: the cycle is idle and every channel has
/// a reading.
pub open spec fn model_ready(m: MoistureModel) -> bool {
    &&& m.state is Off
    &&& forall|i: int| 0 <= i < m.readings.len() ==> #[trigger] m.readings[i] is Some
}

/// Time elapsed from `start` to `now`, or zero if `now` is earlier.
pub open spec fn elapsed(start: u32, now: u32) -> u32 {
    if now >= start {
        (now - start) as u32
    } else {
        0
    }
}

/// One step of the cycle with `pins` channels at time `now`. From idle, the
/// readings are cleared and channel 0 is selected. While measuring channel
/// `n`, its edge count and elapsed time are recorded and the count restarts;
/// then the next channel is selected, or, after the last, the cycle goes
/// idle for the long rest.
pub open spec fn step_model(m: MoistureModel, pins: nat, now: u32) -> (MoistureModel, Step) {
    match m.state {
        State::Off => (
            MoistureModel {
                readings: Seq::new(pins, |i: int| None),
                state: State::Measuring(0, now),
                count: 0,
            },
            Step { action: StepAction::Begin, delay_secs: BETWEEN_READINGS_DELAY_SECS },
        ),
        State::Measuring(n, start) => {
            let readings = m.readings.update(n as int, Some((m.count, elapsed(start, now))));
            if n + 1 == pins {
                (
                    MoistureModel { readings, state: State::Off, count: 0 },
                    Step { action: StepAction::Finish, delay_secs: BETWEEN_MEASUREMENTS_DELAY_SECS },
                )
            } else {
                (
                    MoistureModel { readings, state: State::Measuring((n + 1) as u8, now), count: 0 },
                    Step {
                        action: StepAction::Select((n + 1) as u8),
                        delay_secs: BETWEEN_READINGS_DELAY_SECS,
                    },
                )
            }
        },
    }
}

/// The report that a complete reading set makes.
pub open spec fn report_of(readings: Seq<Option<(u16, u32)>>) -> Seq<MoistureReading> {
    Seq::new(
        readings.len(),
        |i: int|
            MoistureReading { clocks: readings[i]->Some_0.0, duration_ms: readings[i]->Some_0.1 },
    )
}

/// The moisture sensing state machine for `PINS` channels, selected one at a
/// time through three select lines while an interrupt counts edges.
pub struct Moisture<const PINS: usize> where LessThanCarrier<PINS>: LessThan<9> {
    readings: Vec<Option<(u16, u32)>>,
    state: State,
    count: u16,
}

impl<const PINS: usize> View for Moisture<PINS> where LessThanCarrier<PINS>: LessThan<9> {
    type V = MoistureModel;

    closed spec fn view(&self) -> MoistureModel {
        MoistureModel { readings: self.readings@, state: self.state, count: self.count }
    }
}

impl<const PINS: usize> Moisture<PINS> where LessThanCarrier<PINS>: LessThan<9> {
    pub open spec fn wf(&self) -> bool {
        model_wf(self@, PINS as nat)
    }

    /// An idle machine with no readings.
    pub fn new() -> (r: Self)
        requires
            0 < PINS <= 8,
        ensures
            r@ == (MoistureModel {
                readings: Seq::new(PINS as nat, |i: int| None),
                state: State::Off,
                count: 0,
            }),
            r.wf(),
    {
        let readings = Self::cleared();
        Moisture { readings, state: State::Off, count: 0 }
    }

    fn cleared() -> (r: Vec<Option<(u16, u32)>>)
        ensures
            r@ == Seq::new(PINS as nat, |i: int| None::<(u16, u32)>),
    {
        let mut v: Vec<Option<(u16, u32)>> = Vec::new();
        let mut i: usize = 0;
        while i < PINS
            invariant
                i <= PINS,
                v@ == Seq::new(i as nat, |i: int| None::<(u16, u32)>),
            decreases PINS - i,
        {
            v.push(None);
            i = i + 1;
            proof {
                assert(v@ =~= Seq::new(i as nat, |i: int| None::<(u16, u32)>));
            }
        }
        v
    }

    /// Advances the cycle by one step at time `now` (milliseconds), as
    /// `step_model` says, and returns what the hardware is to do and when to
    /// step next.
    pub fn step_state(&mut self, now: u32) -> (r: Step)
        requires
            old(self).wf(),
        ensures
            (final(self)@, r) == step_model(old(self)@, PINS as nat, now),
            final(self).wf(),
    {
        match self.state {
            State::Off => {
                self.readings = Self::cleared();
                self.count = 0;
                self.state = State::Measuring(0, now);
                Step { action: StepAction::Begin, delay_secs: BETWEEN_READINGS_DELAY_SECS }
            },
            State::Measuring(n, start) => {
                let reading = self.count;
                self.count = 0;
                let duration = match now.checked_sub(start) {
                    Some(d) => d,
                    None => 0,
                };
                self.readings.set(n as usize, Some((reading, duration)));
                if (n as usize) + 1 == PINS {
                    self.state = State::Off;
                    proof {
                        assert(self@.readings =~= old(self)@.readings.update(
                            n as int,
                            Some((old(self)@.count, elapsed(start, now))),
                        ));
                    }
                    Step { action: StepAction::Finish, delay_secs: BETWEEN_MEASUREMENTS_DELAY_SECS }
                } else {
                    self.state = State::Measuring(n + 1, now);
                    proof {
                        assert(self@.readings =~= old(self)@.readings.update(
                            n as int,
                            Some((old(self)@.count, elapsed(start, now))),
                        ));
                    }
                    Step { action: StepAction::Select(n + 1), delay_secs: BETWEEN_READINGS_DELAY_SECS }
                }
            },
        }
    }

    /// True when a complete reading set is ready: the cycle is idle and every
    /// channel has a reading.
    pub fn is_reading_ready(&self) -> (r: bool)
        requires
            self.wf(),
        ensures
            r == model_ready(self@),
    {
        match self.state {
            State::Off => self.readings[PINS - 1].is_some(),
            State::Measuring(_, _) => false,
        }
    }

    /// The report of a complete reading set.
    pub fn format_message(&self) -> (r: MoistureSensorReport)
        requires
            self.wf(),
            model_ready(self@),
        ensures
            r@ == report_of(self@.readings),
    {
        let mut moisture = Readings::new();
        let mut i: usize = 0;
        while i < PINS
            invariant
                self.wf(),
                model_ready(self@),
                i <= PINS,
                readings_of(moisture) == report_of(self@.readings).subrange(0, i as int),
            decreases PINS - i,
        {
            let (clocks, duration_ms) = match self.readings[i] {
                Some(r) => r,
                None => (0, 0),
            };
            let _ = moisture.push(MoistureReading { clocks, duration_ms });
            i = i + 1;
            proof {
                assert(readings_of(moisture) =~= report_of(self@.readings).subrange(0, i as int));
            }
        }
        proof {
            assert(report_of(self@.readings).subrange(0, PINS as int) =~= report_of(self@.readings));
        }
        MoistureSensorReport { moisture }
    }

    /// Counts one edge of the selected channel; the count stops at its
    /// largest value rather than wrapping.
    pub fn tick_count(&mut self)
        requires
            old(self).wf(),
        ensures
            final(self)@ == (MoistureModel {
                count: if old(self)@.count < u16::MAX { (old(self)@.count + 1) as u16 } else { u16::MAX },
                ..old(self)@
            }),
            final(self).wf(),
    {
        self.count = self.count.saturating_add(1);
    }
}

/// The levels of the three select lines for channel `n`: bit 0, bit 1 and
/// bit 2 of `n`.
pub fn select_levels(n: u8) -> (r: (bool, bool, bool))
    ensures
        r.0 == (n % 2 == 1),
        r.1 == ((n / 2) % 2 == 1),
        r.2 == ((n / 4) % 2 == 1),
{
    let a1 = (n & 0b1) == 0b1;
    let a2 = (n & 0b10) == 0b10;
    let a3 = (n & 0b100) == 0b100;
    assert(((n & 0b1) == 0b1) == (n % 2 == 1)) by (bit_vector);
    assert(((n & 0b10) == 0b10) == ((n / 2) % 2 == 1)) by (bit_vector);
    assert(((n & 0b100) == 0b100) == ((n / 4) % 2 == 1)) by (bit_vector);
    (a1, a2, a3)
}

/// The states and outcomes of stepping from `m` at each of `times` in turn.
pub open spec fn run_steps(m: MoistureModel, pins: nat, times: Seq<u32>) -> Seq<(MoistureModel, Step)>
    decreases times.len(),
{
    if times.len() == 0 {
        Seq::empty()
    } else {
        let (m1, s1) = step_model(m, pins, times[0]);
        seq![(m1, s1)] + run_steps(m1, pins, times.drop_first())
    }
}

proof fn lemma_measuring_run(m: MoistureModel, pins: nat, j: u8, t: u32, times: Seq<u32>)
    requires
        model_wf(m, pins),
        m.state == State::Measuring(j, t),
        times.len() == pins - j,
    ensures
        ({
            let r = run_steps(m, pins, times);
            &&& r.len() == times.len()
            &&& forall|k: int|
                0 <= k < times.len() - 1 ==> (#[trigger] r[k]).1.action == StepAction::Select(
                    (j + k + 1) as u8,
                ) && r[k].0.state == State::Measuring((j + k + 1) as u8, times[k]) && !model_ready(
                    r[k].0,
                )
            &&& r[times.len() - 1].1.action == StepAction::Finish
            &&& r[times.len() - 1].0.state == State::Off
            &&& model_ready(r[times.len() - 1].0)
            &&& model_wf(r[times.len() - 1].0, pins)
        }),
    decreases times.len(),
{
    let (m1, s1) = step_model(m, pins, times[0]);
    let rest = times.drop_first();
    let r = run_steps(m, pins, times);
    assert(r == seq![(m1, s1)] + run_steps(m1, pins, rest));
    if j + 1 == pins {
        assert(run_steps(m1, pins, rest) =~= Seq::<(MoistureModel, Step)>::empty());
        assert forall|i: int| 0 <= i < m1.readings.len() implies #[trigger] m1.readings[i] is Some by {
            if i != j {
                assert(m.readings[i] is Some);
            }
        }
    } else {
        assert(model_wf(m1, pins)) by {
            assert forall|i: int| 0 <= i < pins implies (#[trigger] m1.readings[i] is Some <==> i < j + 1) by {
                if i != j {
                    assert(m1.readings[i] == m.readings[i]);
                }
            }
        }
        assert(m1.readings[j + 1] is None);
        lemma_measuring_run(m1, pins, (j + 1) as u8, times[0], rest);
        let r1 = run_steps(m1, pins, rest);
        assert forall|k: int| 0 <= k < times.len() - 1 implies (#[trigger] r[k]).1.action
            == StepAction::Select((j + k + 1) as u8) && r[k].0.state == State::Measuring(
            (j + k + 1) as u8,
            times[k],
        ) && !model_ready(r[k].0) by {
            if k > 0 {
                assert(r[k] == r1[k - 1]);
                assert(rest[k - 1] == times[k]);
            }
        }
        assert(r[times.len() - 1] == r1[rest.len() - 1]);
    }
}

/// A cycle from idle with `pins` channels takes `pins + 1` steps: the first
/// selects channel 0 and turns counting on, step `k` selects channel `k`, and
/// the last records the last channel and goes idle with every channel read.
/// Only then is a reading set ready.
pub proof fn lemma_cycle_from_idle(m0: MoistureModel, pins: nat, times: Seq<u32>)
    requires
        model_wf(m0, pins),
        m0.state is Off,
        times.len() == pins + 1,
    ensures
        ({
            let r = run_steps(m0, pins, times);
            &&& r.len() == pins + 1
            &&& r[0].1.action == StepAction::Begin
            &&& r[0].0.state == State::Measuring(0, times[0])
            &&& forall|k: int|
                1 <= k < pins ==> (#[trigger] r[k]).1.action == StepAction::Select(k as u8)
                    && r[k].0.state == State::Measuring(k as u8, times[k])
            &&& forall|k: int| 0 <= k < pins ==> !model_ready(#[trigger] r[k].0)
            &&& r[pins as int].1.action == StepAction::Finish
            &&& r[pins as int].0.state == State::Off
            &&& model_ready(r[pins as int].0)
            &&& model_wf(r[pins as int].0, pins)
        }),
{
    let (m1, s1) = step_model(m0, pins, times[0]);
    let rest = times.drop_first();
    let r = run_steps(m0, pins, times);
    assert(r == seq![(m1, s1)] + run_steps(m1, pins, rest));
    assert(model_wf(m1, pins));
    assert(m1.readings[0] is None);
    lemma_measuring_run(m1, pins, 0, times[0], rest);
    let r1 = run_steps(m1, pins, rest);
    assert forall|k: int| 1 <= k < pins implies (#[trigger] r[k]).1.action == StepAction::Select(
        k as u8,
    ) && r[k].0.state == State::Measuring(k as u8, times[k]) by {
        assert(r[k] == r1[k - 1]);
        assert(rest[k - 1] == times[k]);
    }
    assert forall|k: int| 0 <= k < pins implies !model_ready(#[trigger] r[k].0) by {
        if k > 0 {
            assert(r[k] == r1[k - 1]);
        }
    }
    assert(r[pins as int] == r1[pins - 1]);
}

/// With three channels, a cycle from idle takes four steps: the first selects
/// channel 0 and turns counting on, the next two select channels 1 and 2, and
/// the fourth records channel 2 and goes idle with every channel read. Only
/// then is a reading set ready.
pub proof fn lemma_three_channel_cycle(m0: MoistureModel, t1: u32, t2: u32, t3: u32, t4: u32)
    requires
        model_wf(m0, 3),
        m0.state is Off,
    ensures
        ({
            let (m1, s1) = step_model(m0, 3, t1);
            let (m2, s2) = step_model(m1, 3, t2);
            let (m3, s3) = step_model(m2, 3, t3);
            let (m4, s4) = step_model(m3, 3, t4);
            &&& s1.action == StepAction::Begin && m1.state == State::Measuring(0, t1)
            &&& s2.action == StepAction::Select(1) && m2.state == State::Measuring(1, t2)
            &&& s3.action == StepAction::Select(2) && m3.state == State::Measuring(2, t3)
            &&& s4.action == StepAction::Finish && m4.state == State::Off
            &&& !model_ready(m1) && !model_ready(m2) && !model_ready(m3)
            &&& model_ready(m4)
            &&& model_wf(m4, 3)
        }),
{
    let (m1, s1) = step_model(m0, 3, t1);
    let (m2, s2) = step_model(m1, 3, t2);
    let (m3, s3) = step_model(m2, 3, t3);
    let (m4, s4) = step_model(m3, 3, t4);
    assert(m4.readings[0] is Some);
    assert(m4.readings[1] is Some);
    assert(m4.readings[2] is Some);
    assert forall|i: int| 0 <= i < 3 implies #[trigger] m4.readings[i] is Some by {
        if i == 0 {
        } else if i == 1 {
        } else {
        }
    }
}

} // verus!
