use vstd::prelude::*;
use crate::environment::BME688SensorReport;
use crate::readings::{rate_milli, MoistureReading, MoistureSensorReport, MAX_CHANNELS};

verus! {

/// The largest magnitude of an estimate or a measurement, and of a variance,
/// that a filter takes: enough for every quantity of the reports, and small
/// enough that the arithmetic of a step cannot overflow.
pub const FILTER_BOUND: i64 = 0x100_0000_0000;

/// A one-dimensional Kalman filter with unity observation and transition, in
/// integers: the estimate is in the quantity's own fixed-point unit and the
/// variances in its square.
#[derive(Debug, Clone, Copy, PartialEq, Eq, Structural)]
pub struct ScalarKalman {
    pub estimate: i64,
    pub variance: i64,
    pub measurement_variance: i64,
    pub process_variance: i64,
}

/// A filter whose numbers are within `FILTER_BOUND` and whose measurement
/// variance is positive.
pub open spec fn filter_wf(f: ScalarKalman) -> bool {
    &&& -FILTER_BOUND <= f.estimate <= FILTER_BOUND
    &&& 0 <= f.variance <= FILTER_BOUND
    &&& 0 < f.measurement_variance <= FILTER_BOUND
    &&& 0 <= f.process_variance <= FILTER_BOUND
    &&& f.measurement_variance + f.process_variance <= FILTER_BOUND
}

/// The gain-weighted correction `p * (z - x) / (p + r)`, rounded toward zero.
pub open spec fn correction(f: ScalarKalman, z: int) -> int {
    let p = f.variance as int;
    let r = f.measurement_variance as int;
    let x = f.estimate as int;
    if z >= x {
        (p * (z - x)) / (p + r)
    } else {
        -((p * (x - z)) / (p + r))
    }
}

/// One update-then-predict step on measurement `z`: the estimate moves toward
/// `z` by the gain `p / (p + r)`; the variance shrinks to `p * r / (p + r)`
/// (rounded down), then grows by the process variance.
pub open spec fn kalman_step(f: ScalarKalman, z: int) -> ScalarKalman {
    let p = f.variance as int;
    let r = f.measurement_variance as int;
    ScalarKalman {
        estimate: (f.estimate + correction(f, z)) as i64,
        variance: ((p * r) / (p + r) + f.process_variance) as i64,
        ..f
    }
}

proof fn lemma_step_bounds(f: ScalarKalman, z: int)
    requires
        filter_wf(f),
        -FILTER_BOUND <= z <= FILTER_BOUND,
    ensures
        f.estimate <= z ==> f.estimate <= f.estimate + correction(f, z) <= z,
        z <= f.estimate ==> z <= f.estimate + correction(f, z) <= f.estimate,
        0 <= (f.variance as int * f.measurement_variance as int) / (f.variance as int
            + f.measurement_variance as int) <= f.measurement_variance,
{
    let p = f.variance as int;
    let r = f.measurement_variance as int;
    let x = f.estimate as int;
    assert(p + r > 0);
    if z >= x {
        let d = z - x;
        assert(0 <= (p * d) / (p + r) <= d) by (nonlinear_arith)
            requires
                p >= 0,
                r > 0,
                d >= 0,
        {
            vstd::arithmetic::div_mod::lemma_div_is_ordered(p * d, (p + r) * d, p + r);
            vstd::arithmetic::div_mod::lemma_div_by_multiple(d, p + r);
        }
    } else {
        let d = x - z;
        assert(0 <= (p * d) / (p + r) <= d) by (nonlinear_arith)
            requires
                p >= 0,
                r > 0,
                d >= 0,
        {
            vstd::arithmetic::div_mod::lemma_div_is_ordered(p * d, (p + r) * d, p + r);
            vstd::arithmetic::div_mod::lemma_div_by_multiple(d, p + r);
        }
    }
    assert(0 <= (p * r) / (p + r) <= r) by (nonlinear_arith)
        requires
            p >= 0,
            r > 0,
    {
        vstd::arithmetic::div_mod::lemma_div_is_ordered(p * r, (p + r) * r, p + r);
        vstd::arithmetic::div_mod::lemma_div_by_multiple(r, p + r);
    }
}

/// A step keeps a filter within its bounds, and its estimate between the
/// previous estimate and the measurement.
pub proof fn lemma_step_smooths(f: ScalarKalman, z: int)
    requires
        filter_wf(f),
        -FILTER_BOUND <= z <= FILTER_BOUND,
    ensures
        filter_wf(kalman_step(f, z)),
        f.estimate <= z ==> f.estimate <= kalman_step(f, z).estimate <= z,
        z <= f.estimate ==> z <= kalman_step(f, z).estimate <= f.estimate,
        kalman_step(f, z).variance <= f.measurement_variance + f.process_variance,
{
    lemma_step_bounds(f, z);
}

impl ScalarKalman {
    /// A filter that starts from `estimate` with uncertainty `variance`.
    pub fn new(estimate: i64, variance: i64, measurement_variance: i64, process_variance: i64) -> (r: ScalarKalman)
        ensures
            r == (ScalarKalman { estimate, variance, measurement_variance, process_variance }),
    {
        ScalarKalman { estimate, variance, measurement_variance, process_variance }
    }

    /// Folds in measurement `z` with one update-then-predict step, and returns
    /// the new estimate.
    pub fn update(&mut self, z: i64) -> (r: i64)
        requires
            filter_wf(*old(self)),
            -FILTER_BOUND <= z <= FILTER_BOUND,
        ensures
            *final(self) == kalman_step(*old(self), z as int),
            filter_wf(*final(self)),
            r == final(self).estimate,
    {
        proof {
            lemma_step_smooths(*self, z as int);
            let p = self.variance as int;
            let d = if z >= self.estimate { z - self.estimate } else { self.estimate - z };
            assert(0 <= p * d <= FILTER_BOUND * (2 * FILTER_BOUND)) by (nonlinear_arith)
                requires
                    0 <= p <= FILTER_BOUND,
                    0 <= d <= 2 * FILTER_BOUND,
            ;
            assert(0 <= p * self.measurement_variance <= FILTER_BOUND * FILTER_BOUND) by (nonlinear_arith)
                requires
                    0 <= p <= FILTER_BOUND,
                    0 <= self.measurement_variance <= FILTER_BOUND,
            ;
        }
        let p = self.variance as i128;
        let r = self.measurement_variance as i128;
        let x = self.estimate as i128;
        let zz = z as i128;
        let next = if zz >= x {
            x + (p * (zz - x)) / (p + r)
        } else {
            x - (p * (x - zz)) / (p + r)
        };
        let var = (p * r) / (p + r) + self.process_variance as i128;
        self.estimate = next as i64;
        self.variance = var as i64;
        self.estimate
    }
}

/// The starting uncertainty of every filter: large, so that the first
/// reading all but replaces the starting estimate of zero.
pub const INITIAL_VARIANCE: i64 = 0x100_0000_0000;

/// Measurement and process variances of each quantity, in the square of its
/// unit: temperature (0.5 °C and 0.01 °C), pressure (10 Pa and 1 Pa),
/// humidity (1 % and 0.1 %), gas resistance (1 kΩ and 10 Ω), moisture rate
/// (1 and 0.1 edges per second).
pub const TEMP_MEASUREMENT_VARIANCE: i64 = 250_000;

pub const TEMP_PROCESS_VARIANCE: i64 = 100;

pub const PRESSURE_MEASUREMENT_VARIANCE: i64 = 100_000_000;

pub const PRESSURE_PROCESS_VARIANCE: i64 = 1_000_000;

pub const HUMIDITY_MEASUREMENT_VARIANCE: i64 = 1_000_000;

pub const HUMIDITY_PROCESS_VARIANCE: i64 = 10_000;

pub const GAS_MEASUREMENT_VARIANCE: i64 = 1_000_000;

pub const GAS_PROCESS_VARIANCE: i64 = 100;

pub const MOISTURE_MEASUREMENT_VARIANCE: i64 = 1_000_000;

pub const MOISTURE_PROCESS_VARIANCE: i64 = 10_000;

/// The smoothed environmental quantities, in the units of
/// `BME688SensorReport`.
#[derive(Debug, Clone, Copy, PartialEq, Eq, Structural)]
pub struct FusedEnvironment {
    pub temp: i64,
    pub pressure: i64,
    pub humidity: i64,
    pub gas_resistance: i64,
}

/// The state of a `Fusion`: one filter per environmental quantity, and one
/// per moisture channel.
pub struct FusionModel {
    pub temp: ScalarKalman,
    pub pressure: ScalarKalman,
    pub humidity: ScalarKalman,
    pub gas_resistance: ScalarKalman,
    pub moisture: Seq<ScalarKalman>,
}

/// The base station's sensor fusion: an independent filter for each
/// environmental quantity and for each moisture channel.
#[derive(Debug)]
pub struct Fusion {
    temp: ScalarKalman,
    pressure: ScalarKalman,
    humidity: ScalarKalman,
    gas_resistance: ScalarKalman,
    moisture: Vec<ScalarKalman>,
}

/// Every filter within its bounds, one per channel.
pub open spec fn fusion_wf(m: FusionModel) -> bool {
    &&& filter_wf(m.temp)
    &&& filter_wf(m.pressure)
    &&& filter_wf(m.humidity)
    &&& filter_wf(m.gas_resistance)
    &&& m.moisture.len() == MAX_CHANNELS
    &&& forall|i: int| 0 <= i < m.moisture.len() ==> filter_wf(#[trigger] m.moisture[i])
}

impl View for Fusion {
    type V = FusionModel;

    closed spec fn view(&self) -> FusionModel {
        FusionModel {
            temp: self.temp,
            pressure: self.pressure,
            humidity: self.humidity,
            gas_resistance: self.gas_resistance,
            moisture: self.moisture@,
        }
    }
}

impl Fusion {
    #[verifier::type_invariant]
    closed spec fn inv(self) -> bool {
        fusion_wf(self@)
    }

    /// Filters at their starting estimates.
    pub fn new() -> (r: Fusion)
        ensures
            fusion_wf(r@),
            r@.temp == ScalarKalman::new_spec(TEMP_MEASUREMENT_VARIANCE, TEMP_PROCESS_VARIANCE),
            r@.pressure == ScalarKalman::new_spec(PRESSURE_MEASUREMENT_VARIANCE, PRESSURE_PROCESS_VARIANCE),
            r@.humidity == ScalarKalman::new_spec(HUMIDITY_MEASUREMENT_VARIANCE, HUMIDITY_PROCESS_VARIANCE),
            r@.gas_resistance == ScalarKalman::new_spec(GAS_MEASUREMENT_VARIANCE, GAS_PROCESS_VARIANCE),
            forall|i: int| 0 <= i < MAX_CHANNELS ==> r@.moisture[i] == ScalarKalman::new_spec(
                MOISTURE_MEASUREMENT_VARIANCE,
                MOISTURE_PROCESS_VARIANCE,
            ),
    {
        let mut moisture: Vec<ScalarKalman> = Vec::new();
        let mut i: usize = 0;
        while i < MAX_CHANNELS
            invariant
                i <= MAX_CHANNELS,
                moisture@.len() == i,
                forall|j: int| 0 <= j < i ==> moisture@[j] == ScalarKalman::new_spec(
                    MOISTURE_MEASUREMENT_VARIANCE,
                    MOISTURE_PROCESS_VARIANCE,
                ),
            decreases MAX_CHANNELS - i,
        {
            moisture.push(ScalarKalman::new(0, INITIAL_VARIANCE, MOISTURE_MEASUREMENT_VARIANCE, MOISTURE_PROCESS_VARIANCE));
            i = i + 1;
        }
        Fusion {
            temp: ScalarKalman::new(0, INITIAL_VARIANCE, TEMP_MEASUREMENT_VARIANCE, TEMP_PROCESS_VARIANCE),
            pressure: ScalarKalman::new(0, INITIAL_VARIANCE, PRESSURE_MEASUREMENT_VARIANCE, PRESSURE_PROCESS_VARIANCE),
            humidity: ScalarKalman::new(0, INITIAL_VARIANCE, HUMIDITY_MEASUREMENT_VARIANCE, HUMIDITY_PROCESS_VARIANCE),
            gas_resistance: ScalarKalman::new(0, INITIAL_VARIANCE, GAS_MEASUREMENT_VARIANCE, GAS_PROCESS_VARIANCE),
            moisture,
        }
    }

    /// Folds an accepted environmental report into the four filters and
    /// returns their new estimates.
    pub fn fold_environment(&mut self, r: &BME688SensorReport) -> (out: FusedEnvironment)
        ensures
            fusion_wf(final(self)@),
            final(self)@.temp == kalman_step(old(self)@.temp, r.temp as int),
            final(self)@.pressure == kalman_step(old(self)@.pressure, r.pressure as int),
            final(self)@.humidity == kalman_step(old(self)@.humidity, r.humidity as int),
            final(self)@.gas_resistance == kalman_step(old(self)@.gas_resistance, r.gas_resistance as int),
            final(self)@.moisture == old(self)@.moisture,
            out == (FusedEnvironment {
                temp: final(self)@.temp.estimate,
                pressure: final(self)@.pressure.estimate,
                humidity: final(self)@.humidity.estimate,
                gas_resistance: final(self)@.gas_resistance.estimate,
            }),
    {
        proof {
            use_type_invariant(&*self);
        }
        let mut t = self.temp;
        let mut p = self.pressure;
        let mut h = self.humidity;
        let mut g = self.gas_resistance;
        let temp = t.update(r.temp as i64);
        let pressure = p.update(r.pressure as i64);
        let humidity = h.update(r.humidity as i64);
        let gas_resistance = g.update(r.gas_resistance as i64);
        self.temp = t;
        self.pressure = p;
        self.humidity = h;
        self.gas_resistance = g;
        FusedEnvironment { temp, pressure, humidity, gas_resistance }
    }

    /// Folds an accepted moisture report into the filters of its channels and
    /// returns each channel's new estimate of its rate, in thousandths of an
    /// edge per second. A channel with no rate (no duration) leaves its
    /// filter as it was and gives `None`.
    pub fn fold_moisture(&mut self, report: &MoistureSensorReport) -> (out: Vec<Option<i64>>)
        ensures
            fusion_wf(final(self)@),
            out@.len() == report@.len(),
            final(self)@.moisture.len() == old(self)@.moisture.len(),
            forall|i: int| 0 <= i < report@.len() ==> match #[trigger] rate_milli(report@[i]) {
                Some(z) => final(self)@.moisture[i] == kalman_step(old(self)@.moisture[i], z)
                    && out@[i] == Some(final(self)@.moisture[i].estimate),
                None => final(self)@.moisture[i] == old(self)@.moisture[i] && out@[i] is None,
            },
            forall|i: int| report@.len() <= i < MAX_CHANNELS ==> final(self)@.moisture[i] == old(self)@.moisture[i],
            final(self)@.temp == old(self)@.temp,
            final(self)@.pressure == old(self)@.pressure,
            final(self)@.humidity == old(self)@.humidity,
            final(self)@.gas_resistance == old(self)@.gas_resistance,
    {
        proof {
            use_type_invariant(&*self);
        }
        let readings = report.moisture.to_vec();
        let n = report.moisture.len();
        let mut filters = self.moisture.clone();
        let mut out: Vec<Option<i64>> = Vec::new();
        let mut i: usize = 0;
        while i < n
            invariant
                readings@ == report@,
                n == report@.len(),
                n <= MAX_CHANNELS,
                i <= n,
                fusion_wf(FusionModel { moisture: filters@, ..self@ }),
                out@.len() == i,
                filters@.len() == old(self)@.moisture.len(),
                self@ == old(self)@,
                forall|j: int| 0 <= j < i ==> match #[trigger] rate_milli(report@[j]) {
                    Some(z) => filters@[j] == kalman_step(old(self)@.moisture[j], z)
                        && out@[j] == Some(filters@[j].estimate),
                    None => filters@[j] == old(self)@.moisture[j] && out@[j] is None,
                },
                forall|j: int| i <= j < MAX_CHANNELS ==> filters@[j] == old(self)@.moisture[j],
            decreases n - i,
        {
            let reading: MoistureReading = readings[i];
            match reading.per_second() {
                Some(z) => {
                    proof {
                        assert(z as int <= 0xffff * 1_000_000) by (nonlinear_arith)
                            requires
                                z as int == reading.clocks as int * 1_000_000 / reading.duration_ms as int,
                                reading.duration_ms > 0,
                                reading.clocks <= 0xffff,
                        {
                            vstd::arithmetic::div_mod::lemma_div_is_ordered(
                                reading.clocks as int * 1_000_000,
                                0xffffint * 1_000_000,
                                reading.duration_ms as int,
                            );
                            vstd::arithmetic::div_mod::lemma_div_is_ordered_by_denominator(0xffffint * 1_000_000, 1, reading.duration_ms as int);
                        }
                    }
                    let mut f = filters[i];
                    let e = f.update(z as i64);
                    filters.set(i, f);
                    out.push(Some(e));
                },
                None => {
                    out.push(None);
                },
            }
            i = i + 1;
        }
        self.moisture = filters;
        out
    }
}

impl ScalarKalman {
    /// A filter at estimate zero with `INITIAL_VARIANCE` and the given
    /// variances.
    pub open spec fn new_spec(measurement_variance: i64, process_variance: i64) -> ScalarKalman {
        ScalarKalman { estimate: 0, variance: INITIAL_VARIANCE, measurement_variance, process_variance }
    }
}

} // verus!
